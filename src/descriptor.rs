//! The CPU descriptor text: blocks of `key : value` lines separated by blank
//! lines, one block per logical processor.
use crate::text::{
    bounds_within, chars_of, find_char, find_first, lines, pieces, split_lines, string_of, trim,
    trim_bounds,
};
use vstd::prelude::*;

verus! {

/// A key and its value, as character sequences.
pub type PairView = (Seq<char>, Seq<char>);

pub open spec fn pairs_view(b: Seq<(String, String)>) -> Seq<PairView> {
    b.map_values(|e: (String, String)| (e.0@, e.1@))
}

pub open spec fn blocks_view(bs: Seq<Vec<(String, String)>>) -> Seq<Seq<PairView>> {
    bs.map_values(|b: Vec<(String, String)>| pairs_view(b@))
}

/// One line read into the blocks finished so far and the block being read.
/// A blank line closes a non-empty block; a line with a `:` adds a trimmed
/// key and value; any other line is skipped.
pub open spec fn scan_line(st: (Seq<Seq<PairView>>, Seq<PairView>), line: Seq<char>) -> (
    Seq<Seq<PairView>>,
    Seq<PairView>,
) {
    let t = trim(line);
    if t.len() == 0 {
        if st.1.len() > 0 {
            (st.0.push(st.1), Seq::empty())
        } else {
            st
        }
    } else {
        match find_first(t, ':') {
            None => st,
            Some(k) => (st.0, st.1.push((trim(t.subrange(0, k)), trim(t.subrange(k + 1, t.len() as int))))),
        }
    }
}

pub open spec fn scan_lines(ls: Seq<Seq<char>>) -> (Seq<Seq<PairView>>, Seq<PairView>)
    decreases ls.len(),
{
    if ls.len() == 0 {
        (Seq::empty(), Seq::empty())
    } else {
        scan_line(scan_lines(ls.drop_last()), ls.last())
    }
}

/// The blocks of `text`, each a list of key/value pairs in the order written.
pub open spec fn descriptor_blocks(text: Seq<char>) -> Seq<Seq<PairView>> {
    let st = scan_lines(lines(text));
    if st.1.len() > 0 {
        st.0.push(st.1)
    } else {
        st.0
    }
}

proof fn lemma_pairs_push(b: Seq<(String, String)>, e: (String, String))
    ensures
        pairs_view(b.push(e)) == pairs_view(b).push((e.0@, e.1@)),
{
    assert(pairs_view(b.push(e)) =~= pairs_view(b).push((e.0@, e.1@)));
}

proof fn lemma_blocks_push(bs: Seq<Vec<(String, String)>>, b: Vec<(String, String)>)
    ensures
        blocks_view(bs.push(b)) == blocks_view(bs).push(pairs_view(b@)),
{
    assert(blocks_view(bs.push(b)) =~= blocks_view(bs).push(pairs_view(b@)));
}

/// Splits descriptor text into its blocks of key/value pairs.
pub fn parse_blocks(text: &str) -> (r: Vec<Vec<(String, String)>>)
    ensures
        blocks_view(r@) == descriptor_blocks(text@),
{
    let v = chars_of(text);
    let ls = split_lines(&v);
    let ghost lsv = lines(v@);
    let mut done: Vec<Vec<(String, String)>> = Vec::new();
    let mut current: Vec<(String, String)> = Vec::new();
    let mut j: usize = 0;
    assert(lsv.subrange(0, 0) =~= Seq::<Seq<char>>::empty());
    assert(blocks_view(done@) =~= Seq::<Seq<PairView>>::empty());
    assert(pairs_view(current@) =~= Seq::<PairView>::empty());
    while j < ls.len()
        invariant
            v@ == text@,
            lsv == lines(v@),
            pieces(v@, ls@) == lsv,
            bounds_within(ls@, 0, v.len() as int),
            j <= ls.len(),
            scan_lines(lsv.subrange(0, j as int)) == (blocks_view(done@), pairs_view(current@)),
        decreases ls.len() - j,
    {
        let (x, y) = ls[j];
        let ghost line = v@.subrange(x as int, y as int);
        assert(lsv[j as int] == line);
        assert(lsv.subrange(0, j + 1).drop_last() == lsv.subrange(0, j as int));
        let (a, b) = trim_bounds(&v, x, y);
        let ghost t = v@.subrange(a as int, b as int);
        if a == b {
            if current.len() > 0 {
                proof {
                    lemma_blocks_push(done@, current);
                }
                done.push(current);
                current = Vec::new();
                assert(pairs_view(current@) =~= Seq::<PairView>::empty());
            }
        } else {
            match find_char(&v, a, b, ':') {
                None => {},
                Some(k) => {
                    assert(t.subrange(0, k - a) == v@.subrange(a as int, k as int));
                    assert(t.subrange(k + 1 - a, t.len() as int) == v@.subrange(k + 1, b as int));
                    let kb = trim_bounds(&v, a, k);
                    let vb = trim_bounds(&v, k + 1, b);
                    let key = string_of(&v, kb.0, kb.1);
                    let value = string_of(&v, vb.0, vb.1);
                    proof {
                        lemma_pairs_push(current@, (key, value));
                    }
                    current.push((key, value));
                },
            }
        }
        j = j + 1;
    }
    assert(lsv.subrange(0, j as int) == lsv);
    if current.len() > 0 {
        proof {
            lemma_blocks_push(done@, current);
        }
        done.push(current);
    }
    done
}

} // verus!
