//! The path of a request, as the base of the addresses that answers refer to.

use vstd::prelude::*;
use vstd::string::*;
use vstd::utf8::*;

use crate::text::lemma_encode_concat;

verus! {

/// The URI of a request.
pub struct RequestedUriString(String);

/// Where the query of a URI starts: the place of the first `?`, and the
/// length of the URI where it has none.
pub open spec fn query_start(uri: Seq<u8>) -> int
    decreases uri.len(),
{
    if uri.len() == 0 || uri[0] == 63 {
        0
    } else {
        1 + query_start(uri.drop_first())
    }
}

/// The path of a URI as a directory: what stands before the query, with a
/// slash at its end.
pub open spec fn directory_of(uri: Seq<u8>) -> Seq<u8> {
    let path = uri.take(query_start(uri));
    if path.len() > 0 && path.last() == 47 {
        path
    } else {
        path.push(47)
    }
}

/// The query starts within the URI, at a `?` if anywhere, and no `?` stands
/// before it.
pub proof fn lemma_query_start(uri: Seq<u8>)
    ensures
        0 <= query_start(uri) <= uri.len(),
        query_start(uri) < uri.len() ==> uri[query_start(uri)] == 63,
        forall|i: int| 0 <= i < query_start(uri) ==> uri[i] != 63,
    decreases uri.len(),
{
    if uri.len() == 0 || uri[0] == 63 {
    } else {
        let rest = uri.drop_first();
        lemma_query_start(rest);
        assert forall|i: int| 0 <= i < query_start(uri) implies uri[i] != 63 by {
            if i > 0 {
                assert(uri[i] == rest[i - 1]);
            }
        }
        if query_start(uri) < uri.len() {
            assert(uri[query_start(uri)] == rest[query_start(rest)]);
        }
    }
}

/// The first `?` of a URI is where its query starts.
pub proof fn lemma_first_mark_is_query_start(uri: Seq<u8>, cut: int)
    requires
        0 <= cut <= uri.len(),
        cut < uri.len() ==> uri[cut] == 63,
        forall|i: int| 0 <= i < cut ==> uri[i] != 63,
    ensures
        query_start(uri) == cut,
{
    lemma_query_start(uri);
    let start = query_start(uri);
    if start < cut {
        assert(uri[start] != 63);
    }
}

impl RequestedUriString {
    /// The URI as it came.
    pub closed spec fn text(&self) -> Seq<char> {
        self.0@
    }

    /// The path of the URI as a directory.
    pub open spec fn directory(&self) -> Seq<char> {
        decode_utf8(directory_of(encode_utf8(self.text())))
    }

    /// Wraps the URI of a request.
    pub fn new(uri: String) -> (wrapped: RequestedUriString)
        ensures
            wrapped.text() == uri@,
    {
        RequestedUriString(uri)
    }

    /// The path of the URI as a directory: the query is left out, and a
    /// slash is added where the path does not end in one.
    pub fn to_string(&self) -> (path: String)
        ensures
            encode_utf8(path@) == directory_of(encode_utf8(self.text())),
            path@ == self.directory(),
    {
        let uri = self.0.as_str();
        let bytes = uri.as_bytes();
        let mut cut: usize = 0;
        while cut < bytes.len() && bytes[cut] != 63
            invariant
                cut <= bytes.len(),
                forall|i: int| 0 <= i < cut ==> bytes@[i] != 63,
            decreases bytes.len() - cut,
        {
            cut += 1;
        }
        proof {
            lemma_first_mark_is_query_start(bytes@, cut as int);
            encode_utf8_valid_utf8(uri@);
            if cut < bytes.len() {
                let mark = bytes@[cut as int];
                assert(!is_continuation_byte(mark)) by (bit_vector)
                    requires
                        mark == 63,
                ;
                is_char_boundary_iff_not_is_continuation_byte(bytes@, cut as int);
            } else {
                is_char_boundary_start_end_of_seq(bytes@);
            }
        }
        let (path, _) = uri.split_at(cut);
        let mut out = String::from_str(path);
        if cut == 0 || bytes[cut - 1] != 47 {
            out.append("/");
            proof {
                reveal_strlit("/");
                lemma_encode_concat(path@, "/"@);
                is_ascii_chars_encode_utf8("/"@);
                assert(encode_utf8("/"@) =~= seq![47u8]);
                assert(encode_utf8(out@) =~= bytes@.take(cut as int).push(47));
            }
        } else {
            assert(encode_utf8(out@) =~= bytes@.take(cut as int));
        }
        proof {
            encode_utf8_decode_utf8(out@);
        }
        out
    }
}

} // verus!
