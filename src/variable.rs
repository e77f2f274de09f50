//! The names of formula variables: `Node`, `Node.Value`, `Node.Min`,
//! `Node.Max`, `Node.Inc` or `Node.Enum.Entry`.
use vstd::prelude::*;

use crate::text::str_eq;
use crate::error::{GenApiError, GenApiResult};

verus! {

/// Which property of a node a formula variable reads.
#[derive(Debug, Clone, PartialEq, Eq)]
pub enum VariableKind {
    Value,
    Min,
    Max,
    Inc,
    /// The value of the named entry of an enumeration.
    Enum(String),
}

/// The position of the first `c` in `s`, if any.
pub open spec fn first_index_of(s: Seq<char>, c: char) -> Option<int>
    decreases s.len(),
{
    if s.len() == 0 {
        None
    } else if s[0] == c {
        Some(0)
    } else {
        match first_index_of(s.drop_first(), c) {
            Some(i) => Some(i + 1),
            None => None,
        }
    }
}

/// `s` cut at its first two dots: one, two or three parts, the last of
/// which keeps any further dot.
pub open spec fn dot_parts(s: Seq<char>) -> Seq<Seq<char>> {
    match first_index_of(s, '.') {
        None => seq![s],
        Some(i) => {
            let rest = s.subrange(i + 1, s.len() as int);
            match first_index_of(rest, '.') {
                None => seq![s.subrange(0, i), rest],
                Some(j) => seq![
                    s.subrange(0, i),
                    rest.subrange(0, j),
                    rest.subrange(j + 1, rest.len() as int),
                ],
            }
        },
    }
}

proof fn lemma_first_index_of(s: Seq<char>, c: char)
    ensures
        first_index_of(s, c) matches Some(i) ==> 0 <= i < s.len() && s[i] == c && forall|k: int|
            0 <= k < i ==> s[k] != c,
        first_index_of(s, c) is None ==> forall|k: int| 0 <= k < s.len() ==> s[k] != c,
    decreases s.len(),
{
    if s.len() > 0 {
        lemma_first_index_of(s.drop_first(), c);
        if s[0] != c {
            assert forall|k: int| 0 < k < s.len() implies s[k] == s.drop_first()[k - 1] by {}
        }
    }
}

fn find_dot(s: &str, from: usize) -> (r: Option<usize>)
    requires
        from <= s@.len(),
    ensures
        first_index_of(s@.subrange(from as int, s@.len() as int), '.') matches Some(i) ==> (r is Some
            && r->Some_0 == from + i),
        first_index_of(s@.subrange(from as int, s@.len() as int), '.') is None ==> r is None,
        r matches Some(k) ==> from <= k < s@.len(),
{
    let n = s.unicode_len();
    let mut i: usize = from;
    while i < n
        invariant
            n == s@.len(),
            from <= i <= n,
            forall|k: int| from <= k < i ==> s@[k] != '.',
        decreases n - i,
    {
        if s.get_char(i) == '.' {
            proof {
                let t = s@.subrange(from as int, n as int);
                lemma_first_index_of(t, '.');
                assert(t[i - from] == '.');
                if let Some(j) = first_index_of(t, '.') {
                    assert(t[j] == s@[from + j]);
                    if j > i - from {
                        assert(t[i - from] != '.');
                    }
                    assert(j <= i - from);
                }
            }
            return Some(i);
        }
        i = i + 1;
    }
    proof {
        let t = s@.subrange(from as int, n as int);
        lemma_first_index_of(t, '.');
        if let Some(j) = first_index_of(t, '.') {
            assert(t[j] == s@[from + j]);
        }
    }
    None
}

/// The kind that a variable name stands for.
pub open spec fn variable_kind_of(s: Seq<char>) -> Option<VariableKind> {
    let p = dot_parts(s);
    if p.len() == 1 || (p.len() == 2 && p[1] == "Value"@) {
        Some(VariableKind::Value)
    } else if p.len() == 2 && p[1] == "Min"@ {
        Some(VariableKind::Min)
    } else if p.len() == 2 && p[1] == "Max"@ {
        Some(VariableKind::Max)
    } else if p.len() == 2 && p[1] == "Inc"@ {
        Some(VariableKind::Inc)
    } else {
        None
    }
}

/// The entry that a variable `Node.Enum.Entry` names.
pub open spec fn variable_enum_entry(s: Seq<char>) -> Option<Seq<char>> {
    let p = dot_parts(s);
    if p.len() == 3 && p[1] == "Enum"@ {
        Some(p[2])
    } else {
        None
    }
}

impl VariableKind {
    /// Reads a variable name; any other shape is `InvalidNode`.
    pub fn from_str(s: &str) -> (r: GenApiResult<VariableKind>)
        ensures
            variable_kind_of(s@) matches Some(k) ==> r == Ok::<VariableKind, GenApiError>(k),
            variable_enum_entry(s@) matches Some(e) ==> (r matches Ok(VariableKind::Enum(name))
                && name@ == e),
            variable_kind_of(s@) is None && variable_enum_entry(s@) is None ==> r
                == Err::<VariableKind, GenApiError>(GenApiError::InvalidNode),
    {
        let n = s.unicode_len();
        let first = find_dot(s, 0);
        assert(s@.subrange(0, n as int) =~= s@);
        match first {
            None => {
                assert(first_index_of(s@, '.') is None);
                assert(dot_parts(s@) == seq![s@]);
                Ok(VariableKind::Value)
            },
            Some(i) => {
                let second = find_dot(s, i + 1);
                let ghost rest = s@.subrange(i + 1, n as int);
                assert(first_index_of(s@, '.') == Some(i as int));
                match second {
                    None => {
                        assert(first_index_of(rest, '.') is None);
                        assert(dot_parts(s@) == seq![s@.subrange(0, i as int), rest]);
                        let part = s.substring_char(i + 1, n);
                        assert(part@ =~= rest);
                        if str_eq(part, "Value") {
                            Ok(VariableKind::Value)
                        } else if str_eq(part, "Min") {
                            Ok(VariableKind::Min)
                        } else if str_eq(part, "Max") {
                            Ok(VariableKind::Max)
                        } else if str_eq(part, "Inc") {
                            Ok(VariableKind::Inc)
                        } else {
                            Err(GenApiError::InvalidNode)
                        }
                    },
                    Some(j) => {
                        assert(first_index_of(rest, '.') == Some((j - (i + 1)) as int));
                        assert(dot_parts(s@) == seq![
                            s@.subrange(0, i as int),
                            rest.subrange(0, (j - (i + 1)) as int),
                            rest.subrange((j - (i + 1)) + 1, rest.len() as int),
                        ]);
                        let part = s.substring_char(i + 1, j);
                        assert(part@ =~= rest.subrange(0, (j - (i + 1)) as int));
                        assert(s@.subrange(j + 1, n as int) =~= rest.subrange(
                            (j - (i + 1)) + 1,
                            rest.len() as int,
                        ));
                        if str_eq(part, "Enum") {
                            let name = s.substring_char(j + 1, n);
                            Ok(VariableKind::Enum(name.to_string()))
                        } else {
                            Err(GenApiError::InvalidNode)
                        }
                    },
                }
            },
        }
    }
}

} // verus!
