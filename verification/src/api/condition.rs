//! The range of a listing, as read from the query of a request.

use vstd::prelude::*;
use vstd::string::*;
use vstd::utf8::encode_utf8;

use crate::redisdb::record::FieldsView;
use crate::text::{parse_integer, parsed_integer, same_text};

verus! {

/// The limit where a query names none.
pub const DEFAULT_LIMIT: isize = 0;

/// The offset where a query names none.
pub const DEFAULT_OFFSET: isize = 10;

/// The range of a listing.
pub struct LimitOffset {
    limit: isize,
    offset: isize,
}

/// The number that a query value stands for, if it is one.
pub open spec fn parsed_isize(text: Seq<char>) -> Option<int> {
    parsed_integer(encode_utf8(text), true, isize::MIN as int, isize::MAX as int)
}

/// The limit that a query asks for: the largest of the values called
/// `limit` that are numbers, and the default where none is larger.
pub open spec fn query_limit(items: FieldsView) -> int
    decreases items.len(),
{
    if items.len() == 0 {
        DEFAULT_LIMIT as int
    } else {
        let before = query_limit(items.drop_last());
        match parsed_isize(items.last().1) {
            Some(limit) => if items.last().0 == "limit"@ && before < limit {
                limit
            } else {
                before
            },
            None => before,
        }
    }
}

/// The offset that a query asks for: the last of the values called `offset`
/// that are numbers, and the default where there is none.
pub open spec fn query_offset(items: FieldsView) -> int
    decreases items.len(),
{
    if items.len() == 0 {
        DEFAULT_OFFSET as int
    } else {
        match parsed_isize(items.last().1) {
            Some(offset) => if items.last().0 == "offset"@ {
                offset
            } else {
                query_offset(items.drop_last())
            },
            None => query_offset(items.drop_last()),
        }
    }
}

impl LimitOffset {
    /// The limit of the range.
    pub closed spec fn limit(&self) -> isize {
        self.limit
    }

    /// The offset of the range.
    pub closed spec fn offset(&self) -> isize {
        self.offset
    }

    /// A range with the given limit and offset.
    pub fn new(limit: isize, offset: isize) -> (range: LimitOffset)
        ensures
            range.limit() == limit,
            range.offset() == offset,
    {
        LimitOffset { limit, offset }
    }

    /// The limit of the range.
    pub fn get_limit(&self) -> (limit: isize)
        ensures
            limit == self.limit(),
    {
        self.limit
    }

    /// The offset of the range.
    pub fn get_offset(&self) -> (offset: isize)
        ensures
            offset == self.offset(),
    {
        self.offset
    }

    /// Reads a range from the items of a query, each a name and its decoded
    /// value. Items of other names, and values that are no numbers, count
    /// for nothing.
    pub fn from_form(items: &Vec<(String, String)>) -> (range: LimitOffset)
        ensures
            range.limit() == query_limit(items.deep_view()),
            range.offset() == query_offset(items.deep_view()),
    {
        let mut limit: isize = DEFAULT_LIMIT;
        let mut offset: isize = DEFAULT_OFFSET;
        let mut i: usize = 0;
        while i < items.len()
            invariant
                i <= items.len(),
                limit == query_limit(items.deep_view().take(i as int)),
                offset == query_offset(items.deep_view().take(i as int)),
            decreases items.len() - i,
        {
            let ghost seen = items.deep_view().take(i + 1);
            assert(seen.drop_last() =~= items.deep_view().take(i as int));
            assert(seen.last() == items.deep_view()[i as int]);
            let parsed = parse_integer(
                items[i].1.as_str(),
                true,
                isize::MIN as i64,
                isize::MAX as i64,
            );
            if let Some(number) = parsed {
                let number = number as isize;
                if same_text(items[i].0.as_str(), "limit") {
                    if limit < number {
                        limit = number;
                    }
                } else if same_text(items[i].0.as_str(), "offset") {
                    offset = number;
                }
                proof {
                    reveal_strlit("limit");
                    reveal_strlit("offset");
                    assert("limit"@ != "offset"@) by {
                        assert("limit"@.len() == 5);
                        assert("offset"@.len() == 6);
                    }
                }
            }
            i += 1;
        }
        assert(items.deep_view().take(items.len() as int) =~= items.deep_view());
        LimitOffset { limit, offset }
    }
}

} // verus!
