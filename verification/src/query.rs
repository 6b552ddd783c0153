//! The query interpreter: splits a raw search string into an interaction
//! mode and the residual search text. A leading token is a keyword only when
//! whitespace separates it from a remainder and it is exactly one of the
//! fixed, case-sensitive keywords; otherwise the whole input is search text.

use vstd::prelude::*;

verus! {

use vstd::string::*;
use crate::text::str_eq;

/// The interaction context selected by the optional keyword prefix.
#[derive(Clone, Copy, PartialEq, Eq, Structural, Debug)]
pub enum QueryMode {
    Default,
    Edit,
    Delete,
}

/// A parsed query: the mode and the text the clips are filtered by.
pub struct SearchQuery {
    pub mode: QueryMode,
    pub search_text: String,
}

/// Index of the first space, or the length when there is none.
pub open spec fn space_index(s: Seq<char>) -> int
    decreases s.len(),
{
    if s.len() == 0 {
        0
    } else if s.first() == ' ' {
        0
    } else {
        1 + space_index(s.drop_first())
    }
}

proof fn lemma_space_index(s: Seq<char>)
    ensures
        0 <= space_index(s) <= s.len(),
        space_index(s) < s.len() ==> s[space_index(s)] == ' ',
        forall|j: int| 0 <= j < space_index(s) ==> s[j] != ' ',
    decreases s.len(),
{
    if s.len() > 0 && s.first() != ' ' {
        lemma_space_index(s.drop_first());
        assert forall|j: int| 0 <= j < space_index(s) implies s[j] != ' ' by {
            if j > 0 {
                assert(s.drop_first()[j - 1] == s[j]);
            }
        }
    }
}

/// The mode the keyword before the first space selects, if any.
pub open spec fn keyword_mode(kw: Seq<char>) -> Option<QueryMode> {
    if kw == "edit"@ || kw == "e"@ {
        Some(QueryMode::Edit)
    } else if kw == "delete"@ || kw == "d"@ {
        Some(QueryMode::Delete)
    } else {
        None
    }
}

/// What parsing returns: the mode and the residual search text. Without a
/// recognized keyword the entire input is the search text.
pub open spec fn query_spec(s: Seq<char>) -> (QueryMode, Seq<char>) {
    let i = space_index(s);
    if i == s.len() {
        (QueryMode::Default, s)
    } else {
        match keyword_mode(s.take(i)) {
            Some(m) => (m, s.skip(i + 1)),
            None => (QueryMode::Default, s),
        }
    }
}

/// Splits the raw search string into mode and residual search text.
pub fn parse_query(input: &str) -> (r: SearchQuery)
    ensures
        r.mode == query_spec(input@).0,
        r.search_text@ == query_spec(input@).1,
{
    proof {
        lemma_space_index(input@);
    }
    let n = input.unicode_len();
    let mut i: usize = 0;
    let mut found = false;
    while i < n && !found
        invariant
            i <= n,
            n == input@.len(),
            found ==> i < n && input@[i as int] == ' ',
            forall|j: int| 0 <= j < i ==> input@[j] != ' ',
        decreases n - i + (if found { 0int } else { 1int }),
    {
        if input.get_char(i) == ' ' {
            found = true;
        } else {
            i += 1;
        }
    }
    proof {
        lemma_space_index(input@);
        if found {
            assert(space_index(input@) == i as int) by {
                if space_index(input@) < i as int {
                    assert(input@[space_index(input@)] == ' ');
                }
            }
        } else {
            assert(space_index(input@) == n as int) by {
                if space_index(input@) < n as int {
                    assert(input@[space_index(input@)] == ' ');
                }
            }
        }
    }
    if !found {
        return SearchQuery { mode: QueryMode::Default, search_text: input.to_owned() };
    }
    let kw = input.substring_char(0, i);
    proof {
        assert(kw@ == input@.take(i as int));
    }
    let mode = if str_eq(kw, "edit") || str_eq(kw, "e") {
        Some(QueryMode::Edit)
    } else if str_eq(kw, "delete") || str_eq(kw, "d") {
        Some(QueryMode::Delete)
    } else {
        None
    };
    match mode {
        Some(m) => {
            let rest = input.substring_char(i + 1, n);
            proof {
                assert(rest@ == input@.skip(i + 1));
            }
            SearchQuery { mode: m, search_text: rest.to_owned() }
        },
        None => SearchQuery { mode: QueryMode::Default, search_text: input.to_owned() },
    }
}

} // verus!
