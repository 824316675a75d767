//! The per-interface traffic counter table of the kernel: two header lines,
//! then one line `<name>: <16 integers>` per interface.
use crate::error::Error;
use crate::network::{NetIoCounters, find_position, names_unique, nic_view, position_of};
use crate::text::{
    bounds_within, chars_of, find_char, find_first, lines, parse_u64, parse_u64_at, pieces,
    split_lines, split_words, string_of, trim, trim_bounds, words,
};
use vstd::prelude::*;

verus! {

/// Where the kernel publishes the table.
pub const NET_DEV_PATH: &'static str = "/proc/net/dev";

/// Number of integers on each interface line.
pub const NET_DEV_FIELDS: usize = 16;

/// The value of word `j`, once it is known to parse.
pub open spec fn word_value(ws: Seq<Seq<char>>, j: int) -> u64 {
    parse_u64(ws[j]).unwrap()
}

/// The eight counters kept out of the sixteen fields, in the table's order:
/// received bytes, packets, errors, drops, three unused, sent bytes, packets,
/// errors, drops, four unused.
pub open spec fn counters_of_words(ws: Seq<Seq<char>>) -> NetIoCounters {
    NetIoCounters {
        bytes_sent: word_value(ws, 8),
        bytes_recv: word_value(ws, 0),
        packets_sent: word_value(ws, 9),
        packets_recv: word_value(ws, 1),
        err_in: word_value(ws, 2),
        err_out: word_value(ws, 10),
        drop_in: word_value(ws, 3),
        drop_out: word_value(ws, 11),
    }
}

pub open spec fn all_numbers(ws: Seq<Seq<char>>) -> bool {
    forall|j: int| 0 <= j < ws.len() ==> (#[trigger] parse_u64(ws[j])) is Some
}

/// One line of the table: `Some(None)` for a blank line, `Some(Some(entry))`
/// for an interface, `None` for a malformed line.
pub open spec fn net_line(line: Seq<char>) -> Option<Option<(Seq<char>, NetIoCounters)>> {
    let t = trim(line);
    if t.len() == 0 {
        Some(None)
    } else {
        match find_first(t, ':') {
            None => None,
            Some(k) => {
                let ws = words(t.subrange(k + 1, t.len() as int));
                if ws.len() == NET_DEV_FIELDS && all_numbers(ws) {
                    Some(Some((trim(t.subrange(0, k)), counters_of_words(ws))))
                } else {
                    None
                }
            },
        }
    }
}

/// `m` with the entry `e`: it replaces the entry of the same name where there
/// is one, and is added at the end where there is none.
pub open spec fn upsert(m: Seq<(Seq<char>, NetIoCounters)>, e: (Seq<char>, NetIoCounters)) -> Seq<
    (Seq<char>, NetIoCounters),
> {
    match position_of(m, e.0) {
        Some(i) => m.update(i, e),
        None => m.push(e),
    }
}

/// The entries of the interface lines `ls`, if none is malformed; a later
/// line of an interface replaces an earlier one.
pub open spec fn net_entries(ls: Seq<Seq<char>>) -> Option<Seq<(Seq<char>, NetIoCounters)>>
    decreases ls.len(),
{
    if ls.len() == 0 {
        Some(Seq::empty())
    } else {
        match (net_entries(ls.drop_last()), net_line(ls.last())) {
            (Some(p), Some(Some(e))) => Some(upsert(p, e)),
            (Some(p), Some(None)) => Some(p),
            _ => None,
        }
    }
}

/// The whole table: the lines after the two header lines.
pub open spec fn net_table(text: Seq<char>) -> Option<Seq<(Seq<char>, NetIoCounters)>> {
    let ls = lines(text);
    if ls.len() <= 2 {
        Some(Seq::empty())
    } else {
        net_entries(ls.subrange(2, ls.len() as int))
    }
}

/// Parses the line `v[lo..hi]`.
fn parse_net_line(v: &Vec<char>, lo: usize, hi: usize) -> (r: Option<Option<(String, NetIoCounters)>>)
    requires
        lo <= hi <= v.len(),
    ensures
        match r {
            None => net_line(v@.subrange(lo as int, hi as int)) is None,
            Some(None) => net_line(v@.subrange(lo as int, hi as int)) == Some(None::<(Seq<char>, NetIoCounters)>),
            Some(Some(e)) => net_line(v@.subrange(lo as int, hi as int)) == Some(Some((e.0@, e.1))),
        },
{
    let ghost line = v@.subrange(lo as int, hi as int);
    let (a, b) = trim_bounds(v, lo, hi);
    let ghost t = v@.subrange(a as int, b as int);
    if a == b {
        return Some(None);
    }
    let k = match find_char(v, a, b, ':') {
        Some(k) => k,
        None => {
            return None;
        },
    };
    assert(t.subrange(k + 1 - a, t.len() as int) == v@.subrange(k + 1, b as int));
    assert(t.subrange(0, k - a) == v@.subrange(a as int, k as int));
    let ws = split_words(v, k + 1, b);
    let ghost wsv = words(v@.subrange(k + 1, b as int));
    assert(pieces(v@, ws@) == wsv);
    if ws.len() != NET_DEV_FIELDS {
        return None;
    }
    let mut vals: Vec<u64> = Vec::new();
    let mut j: usize = 0;
    while j < ws.len()
        invariant
            ws.len() == NET_DEV_FIELDS,
            line == v@.subrange(lo as int, hi as int),
            t == trim(line),
            t.len() > 0,
            a <= k < b,
            find_first(t, ':') == Some(k - a),
            words(t.subrange(k + 1 - a, t.len() as int)) == wsv,
            k + 1 <= b <= v.len(),
            bounds_within(ws@, k + 1, b as int),
            pieces(v@, ws@) == wsv,
            j <= ws.len(),
            vals.len() == j,
            forall|i: int| 0 <= i < j ==> parse_u64(#[trigger] wsv[i]) == Some(vals@[i]),
        decreases ws.len() - j,
    {
        let (x, y) = ws[j];
        assert(wsv[j as int] == v@.subrange(x as int, y as int));
        match parse_u64_at(v, x, y) {
            Some(n) => {
                vals.push(n);
            },
            None => {
                assert(parse_u64(wsv[j as int]) is None);
                assert(!all_numbers(wsv));
                return None;
            },
        }
        j = j + 1;
    }
    let name_bounds = trim_bounds(v, a, k);
    let name = string_of(v, name_bounds.0, name_bounds.1);
    let c = NetIoCounters {
        bytes_sent: vals[8],
        bytes_recv: vals[0],
        packets_sent: vals[9],
        packets_recv: vals[1],
        err_in: vals[2],
        err_out: vals[10],
        drop_in: vals[3],
        drop_out: vals[11],
    };
    Some(Some((name, c)))
}

/// Parses the table `text` into one entry per interface, in table order.
pub fn parse_net_dev(text: &str) -> (r: Result<Vec<(String, NetIoCounters)>, Error>)
    ensures
        match r {
            Ok(m) => net_table(text@) == Some(nic_view(m@)) && names_unique(nic_view(m@)),
            Err(e) => net_table(text@) is None && e is ParseFailure,
        },
{
    let v = chars_of(text);
    let ls = split_lines(&v);
    let mut out: Vec<(String, NetIoCounters)> = Vec::new();
    assert(nic_view(out@) =~= Seq::<(Seq<char>, NetIoCounters)>::empty());
    if ls.len() <= 2 {
        return Ok(out);
    }
    let ghost lsv = lines(v@);
    let mut j: usize = 2;
    assert(lsv.subrange(2, 2) =~= Seq::<Seq<char>>::empty());
    while j < ls.len()
        invariant
            v@ == text@,
            pieces(v@, ls@) == lsv,
            lsv == lines(v@),
            bounds_within(ls@, 0, v.len() as int),
            2 <= j <= ls.len(),
            net_entries(lsv.subrange(2, j as int)) == Some(nic_view(out@)),
            names_unique(nic_view(out@)),
        decreases ls.len() - j,
    {
        let (x, y) = ls[j];
        assert(lsv[j as int] == v@.subrange(x as int, y as int));
        assert(lsv.subrange(2, j + 1).drop_last() == lsv.subrange(2, j as int));
        let ghost before = out@;
        match parse_net_line(&v, x, y) {
            None => {
                let bad = string_of(&v, x, y);
                proof {
                    lemma_entries_fail(lsv.subrange(2, ls.len() as int), j - 2);
                    assert(lsv.subrange(2, ls.len() as int).subrange(0, j - 1) == lsv.subrange(2, j + 1));
                }
                return Err(Error::ParseFailure { path: NET_DEV_PATH.to_string(), contents: bad });
            },
            Some(None) => {},
            Some(Some(e)) => {
                let ghost ev = (e.0@, e.1);
                match find_position(&out, &e.0) {
                    Some(i) => {
                        out.remove(i);
                        out.insert(i, e);
                        assert(nic_view(out@) =~= nic_view(before).update(i as int, ev));
                        assert(names_unique(nic_view(out@))) by {
                            assert forall|x: int, y: int| 0 <= x < y < nic_view(out@).len() implies nic_view(out@)[x].0
                                != nic_view(out@)[y].0 by {
                                assert(nic_view(before)[x].0 == nic_view(out@)[x].0);
                                assert(nic_view(before)[y].0 == nic_view(out@)[y].0);
                            }
                        }
                    },
                    None => {
                        out.push(e);
                        assert(nic_view(out@) =~= nic_view(before).push(ev));
                        assert(names_unique(nic_view(out@))) by {
                            assert forall|x: int, y: int| 0 <= x < y < nic_view(out@).len() implies nic_view(out@)[x].0
                                != nic_view(out@)[y].0 by {
                                if y == nic_view(before).len() {
                                    assert(nic_view(before)[x].0 != ev.0);
                                }
                            }
                        }
                    },
                }
            },
        }
        j = j + 1;
    }
    assert(lsv.subrange(2, ls.len() as int) == lsv.subrange(2, j as int));
    Ok(out)
}

/// A malformed line spoils every longer run of lines that holds it.
proof fn lemma_entries_fail(ls: Seq<Seq<char>>, n: int)
    requires
        0 <= n < ls.len(),
        net_entries(ls.subrange(0, n + 1)) is None,
    ensures
        net_entries(ls) is None,
    decreases ls.len(),
{
    if n + 1 < ls.len() {
        assert(ls.drop_last().subrange(0, n + 1) == ls.subrange(0, n + 1));
        lemma_entries_fail(ls.drop_last(), n);
    } else {
        assert(ls.subrange(0, n + 1) == ls);
    }
}

} // verus!
