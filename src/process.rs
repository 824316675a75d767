//! Process helpers: the environment block of a process, and the process ids
//! among the entry names of the process directory.
use crate::error::Error;
use crate::text::{bounds_within, chars_of, find_char, find_first, parse_u64, parse_u64_str, pieces, split_at_char, split_on, string_of};
use vstd::prelude::*;

verus! {

broadcast use vstd::string::group_string_axioms;

/// What names the environment block in a parse error.
pub const ENVIRON: &'static str = "environ";

/// The mappings of an environment block: the pieces between NUL characters,
/// without the empty piece after a final NUL.
pub open spec fn env_mappings(data: Seq<char>) -> Seq<Seq<char>> {
    let p = split_on(data, '\0');
    if p.last().len() == 0 {
        p.drop_last()
    } else {
        p
    }
}

/// `NAME=value` split at its first `=`.
pub open spec fn env_pair(m: Seq<char>) -> Option<(Seq<char>, Seq<char>)> {
    match find_first(m, '=') {
        Some(k) => Some((m.subrange(0, k), m.subrange(k + 1, m.len() as int))),
        None => None,
    }
}

/// The variables of a process, in the order of its environment block.
#[derive(Debug)]
pub struct Environ {
    pub vars: Vec<(String, String)>,
}

pub open spec fn vars_view(v: Seq<(String, String)>) -> Seq<(Seq<char>, Seq<char>)> {
    v.map_values(|e: (String, String)| (e.0@, e.1@))
}

/// The value of the last variable of `v` named `key`.
pub open spec fn env_value(v: Seq<(Seq<char>, Seq<char>)>, key: Seq<char>) -> Option<Seq<char>>
    decreases v.len(),
{
    if v.len() == 0 {
        None
    } else if v.last().0 == key {
        Some(v.last().1)
    } else {
        env_value(v.drop_last(), key)
    }
}

impl Environ {
    /// The value of `key`; where a name occurs twice, the later one counts.
    pub fn get(&self, key: &str) -> (r: Option<&String>)
        ensures
            match r {
                Some(s) => env_value(vars_view(self.vars@), key@) == Some(s@),
                None => env_value(vars_view(self.vars@), key@) is None,
            },
    {
        let mut i: usize = self.vars.len();
        assert(vars_view(self.vars@).subrange(0, i as int) == vars_view(self.vars@));
        while i > 0
            invariant
                i <= self.vars.len(),
                env_value(vars_view(self.vars@), key@) == env_value(vars_view(self.vars@).subrange(0, i as int), key@),
            decreases i,
        {
            assert(vars_view(self.vars@).subrange(0, i as int).drop_last() == vars_view(self.vars@).subrange(0, i - 1));
            if crate::text::same_text(self.vars[i - 1].0.as_str(), key) {
                return Some(&self.vars[i - 1].1);
            }
            i = i - 1;
        }
        None
    }
}

/// Reads an environment block: `NAME=value` mappings, each ended by a NUL.
/// A mapping without `=` makes the whole block malformed.
pub fn parse_environ(data: &str) -> (r: Result<Environ, Error>)
    ensures
        match r {
            Ok(env) => {
                let ms = env_mappings(data@);
                &&& env.vars.len() == ms.len()
                &&& forall|i: int| 0 <= i < ms.len() ==> env_pair(#[trigger] ms[i]) == Some(vars_view(env.vars@)[i])
            },
            Err(e) => exists|i: int| 0 <= i < env_mappings(data@).len() && (#[trigger] env_pair(env_mappings(data@)[i])) is None,
        },
{
    let v = chars_of(data);
    let ps = split_at_char(&v, '\0');
    let ghost all = split_on(v@, '\0');
    proof {
        crate::text::lemma_split_on_nonempty(v@, '\0');
    }
    let n = if ps[ps.len() - 1].0 == ps[ps.len() - 1].1 {
        ps.len() - 1
    } else {
        ps.len()
    };
    let ghost ms = env_mappings(data@);
    assert(ms == all.subrange(0, n as int));
    let mut vars: Vec<(String, String)> = Vec::new();
    let mut j: usize = 0;
    while j < n
        invariant
            v@ == data@,
            pieces(v@, ps@) == all,
            bounds_within(ps@, 0, v.len() as int),
            n <= ps.len(),
            ms == all.subrange(0, n as int),
            ms == env_mappings(data@),
            j <= n,
            vars.len() == j,
            forall|i: int| 0 <= i < j ==> env_pair(#[trigger] ms[i]) == Some(vars_view(vars@)[i]),
        decreases n - j,
    {
        let (x, y) = ps[j];
        assert(ms[j as int] == v@.subrange(x as int, y as int));
        match find_char(&v, x, y, '=') {
            None => {
                assert(env_pair(ms[j as int]) is None);
                assert(env_pair(env_mappings(data@)[j as int]) is None);
                let bad = string_of(&v, x, y);
                return Err(Error::ParseFailure { path: ENVIRON.to_string(), contents: bad });
            },
            Some(k) => {
                assert(v@.subrange(x as int, y as int).subrange(0, k - x) == v@.subrange(x as int, k as int));
                assert(v@.subrange(x as int, y as int).subrange(k + 1 - x, y - x) == v@.subrange(k + 1, y as int));
                let name = string_of(&v, x, k);
                let value = string_of(&v, k + 1, y);
                vars.push((name, value));
            },
        }
        j = j + 1;
    }
    Ok(Environ { vars })
}

/// What `u32::from_str` accepts.
pub open spec fn parse_pid(s: Seq<char>) -> Option<u32> {
    match parse_u64(s) {
        Some(v) => if v <= u32::MAX {
            Some(v as u32)
        } else {
            None
        },
        None => None,
    }
}

/// The process ids among directory entry names, in order.
pub open spec fn pids_of(names: Seq<Seq<char>>) -> Seq<u32>
    decreases names.len(),
{
    if names.len() == 0 {
        Seq::empty()
    } else {
        match parse_pid(names.last()) {
            Some(p) => pids_of(names.drop_last()).push(p),
            None => pids_of(names.drop_last()),
        }
    }
}

/// The entry names of the process directory that are process ids.
pub fn pids(names: &Vec<String>) -> (r: Vec<u32>)
    ensures
        r@ == pids_of(names@.map_values(|s: String| s@)),
{
    let ghost all = names@.map_values(|s: String| s@);
    let mut out: Vec<u32> = Vec::new();
    let mut i: usize = 0;
    while i < names.len()
        invariant
            all == names@.map_values(|s: String| s@),
            i <= names.len(),
            out@ == pids_of(all.subrange(0, i as int)),
        decreases names.len() - i,
    {
        assert(all.subrange(0, i + 1).drop_last() == all.subrange(0, i as int));
        match parse_u64_str(names[i].as_str()) {
            Some(v) => if v <= 0xffff_ffff {
                out.push(v as u32);
            },
            None => {},
        }
        i = i + 1;
    }
    assert(all.subrange(0, i as int) == all);
    out
}

} // verus!
