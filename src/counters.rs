use crate::text::{
    chars_of, decimal_u64, find, find_from, lemma_find_from_bounds, next_newline, parse_u64_digits,
    second_field,
    skip_space_back_exec, skip_space_exec, skip_word_exec, string_of_range, trimmed,
};
use vstd::prelude::*;

verus! {

/// Bytes counted for one accounting tag in one cycle.
pub struct TagTraffic {
    pub tag: String,
    pub bytes_in: u64,
    pub bytes_out: u64,
}

/// The per-tag byte counts of one cycle, one entry per tag, in order of first sighting.
pub struct TrafficStats {
    pub entries: Vec<TagTraffic>,
}

/// One entry of the table, as a tag and its ingress and egress bytes.
pub type TrafficEntry = (Seq<char>, u64, u64);

pub open spec fn entry_view(e: TagTraffic) -> TrafficEntry {
    (e.tag@, e.bytes_in, e.bytes_out)
}

impl View for TrafficStats {
    type V = Seq<TrafficEntry>;

    open spec fn view(&self) -> Seq<TrafficEntry> {
        self.entries@.map_values(|e: TagTraffic| entry_view(e))
    }
}

/// No tag appears twice.
pub open spec fn tags_unique(s: Seq<TrafficEntry>) -> bool {
    forall|i: int, j: int| 0 <= i < s.len() && 0 <= j < s.len() && i != j ==> s[i].0 != s[j].0
}

pub open spec fn has_tag(s: Seq<TrafficEntry>, tag: Seq<char>) -> bool {
    exists|i: int| 0 <= i < s.len() && s[i].0 == tag
}

/// The ingress and egress bytes counted for `tag`; zero for a tag not in the table.
pub open spec fn traffic_of(s: Seq<TrafficEntry>, tag: Seq<char>) -> (u64, u64) {
    if has_tag(s, tag) {
        let i = choose|i: int| 0 <= i < s.len() && s[i].0 == tag;
        (s[i].1, s[i].2)
    } else {
        (0, 0)
    }
}

/// `a + b`, held at the largest `u64`.
pub open spec fn sat_add(a: u64, b: u64) -> u64 {
    if a + b > u64::MAX {
        u64::MAX
    } else {
        (a + b) as u64
    }
}

/// The table after adding `bytes` to the ingress (`is_in`) or egress count of `tag`.
pub open spec fn absorb(s: Seq<TrafficEntry>, tag: Seq<char>, bytes: u64, is_in: bool) -> Seq<
    TrafficEntry,
> {
    if has_tag(s, tag) {
        let i = choose|i: int| 0 <= i < s.len() && s[i].0 == tag;
        if is_in {
            s.update(i, (tag, sat_add(s[i].1, bytes), s[i].2))
        } else {
            s.update(i, (tag, s[i].1, sat_add(s[i].2, bytes)))
        }
    } else if is_in {
        s.push((tag, bytes, 0))
    } else {
        s.push((tag, 0, bytes))
    }
}

/// The comment that marks an accounting rule, up to the tag.
pub open spec fn marker() -> Seq<char> {
    seq!['/', '*', ' ', 'x', 'u', 'i', '-']
}

/// The end of a rule comment.
pub open spec fn closer() -> Seq<char> {
    seq![' ', '*', '/']
}

/// What one line of a counter listing reports: the tag in its accounting comment and
/// the byte count in its second field (zero when that field is no number). A line
/// without the comment, with fewer than two fields, or whose comment is not closed
/// reports nothing.
pub open spec fn line_record(line: Seq<char>) -> Option<(Seq<char>, u64)> {
    match find_from(line, marker(), 0) {
        None => None,
        Some(p) => match second_field(line) {
            None => None,
            Some(f) => {
                let bytes = match decimal_u64(line.subrange(f.0, f.1)) {
                    Some(v) => v,
                    None => 0,
                };
                let start = p + marker().len();
                match find_from(line, closer(), start) {
                    None => None,
                    Some(e) => Some((trimmed(line.subrange(start, e)), bytes)),
                }
            },
        },
    }
}

/// The table after absorbing, in order, each line of `t` from index `pos` on.
pub open spec fn absorb_lines(s: Seq<TrafficEntry>, t: Seq<char>, pos: int, is_in: bool) -> Seq<
    TrafficEntry,
>
    decreases t.len() - pos,
{
    if pos < 0 || pos >= t.len() {
        s
    } else {
        let e = next_newline(t, pos);
        let s1 = match line_record(t.subrange(pos, e)) {
            Some(r) => absorb(s, r.0, r.1, is_in),
            None => s,
        };
        let next = if e < pos || e >= t.len() {
            t.len() as int
        } else {
            e + 1
        };
        absorb_lines(s1, t, next, is_in)
    }
}

/// A copy of `v[from..to]`.
fn copy_range(v: &Vec<char>, from: usize, to: usize) -> (r: Vec<char>)
    requires
        from <= to <= v@.len(),
    ensures
        r@ == v@.subrange(from as int, to as int),
{
    let mut r: Vec<char> = Vec::new();
    let mut i = from;
    while i < to
        invariant
            from <= i <= to <= v@.len(),
            r@ == v@.subrange(from as int, i as int),
        decreases to - i,
    {
        r.push(v[i]);
        i += 1;
        assert(r@ =~= v@.subrange(from as int, i as int));
    }
    r
}

/// `s` without leading and trailing whitespace.
fn trim(s: &Vec<char>) -> (r: String)
    ensures
        r@ == trimmed(s@),
{
    let a = skip_space_exec(s, 0);
    let e = skip_space_back_exec(s, s.len());
    if a < e {
        string_of_range(s, a, e)
    } else {
        String::new()
    }
}

/// The tag and byte count that one line of a counter listing reports, if any.
pub fn parse_counter_line(line: &Vec<char>) -> (r: Option<(String, u64)>)
    ensures
        r matches Some(p) ==> line_record(line@) == Some((p.0@, p.1)),
        r is None ==> line_record(line@) is None,
{
    let mark = vec!['/', '*', ' ', 'x', 'u', 'i', '-'];
    let close = vec![' ', '*', '/'];
    assert(mark@ == marker());
    assert(close@ == closer());
    let p = match find(line, &mark, 0) {
        None => return None,
        Some(p) => p,
    };
    proof {
        lemma_find_from_bounds(line@, marker(), 0);
    }
    let a = skip_space_exec(line, 0);
    let b = skip_word_exec(line, a);
    let c = skip_space_exec(line, b);
    if a >= line.len() || c >= line.len() {
        return None;
    }
    let d = skip_word_exec(line, c);
    let field = copy_range(line, c, d);
    assert(field@.subrange(0, field@.len() as int) =~= field@);
    let bytes = match parse_u64_digits(&field, 0) {
        Some(v) => v,
        None => 0,
    };
    let start = p + 7;
    let e = match find(line, &close, start) {
        None => return None,
        Some(e) => e,
    };
    proof {
        lemma_find_from_bounds(line@, closer(), start as int);
    }
    let inner = copy_range(line, start, e);
    let tag = trim(&inner);
    Some((tag, bytes))
}

impl TrafficStats {
    /// No tag appears twice.
    pub open spec fn wf(&self) -> bool {
        tags_unique(self@)
    }

    /// An empty table.
    pub fn new() -> (r: Self)
        ensures
            r@ == Seq::<TrafficEntry>::empty(),
            r.wf(),
    {
        TrafficStats { entries: Vec::new() }
    }

    /// The ingress and egress bytes counted for `tag`; zero for a tag not in the table.
    pub fn get(&self, tag: &String) -> (r: (u64, u64))
        requires
            self.wf(),
        ensures
            r == traffic_of(self@, tag@),
    {
        let mut i: usize = 0;
        while i < self.entries.len()
            invariant
                i <= self.entries@.len(),
                tags_unique(self@),
                forall|j: int| 0 <= j < i ==> self@[j].0 != tag@,
            decreases self.entries@.len() - i,
        {
            if self.entries[i].tag == *tag {
                let r = (self.entries[i].bytes_in, self.entries[i].bytes_out);
                proof {
                    assert(self@[i as int].0 == tag@);
                    let k = choose|k: int| 0 <= k < self@.len() && self@[k].0 == tag@;
                    assert(k == i);
                }
                return r;
            }
            i += 1;
        }
        (0, 0)
    }

    /// Adds `bytes` to the ingress (`is_in`) or egress count of `tag`.
    pub fn add_bytes(&mut self, tag: String, bytes: u64, is_in: bool)
        requires
            old(self).wf(),
        ensures
            final(self).wf(),
            final(self)@ == absorb(old(self)@, tag@, bytes, is_in),
    {
        let ghost s = self@;
        let ghost tv = tag@;
        let mut i: usize = 0;
        while i < self.entries.len()
            invariant
                i <= self.entries@.len(),
                self@ == s,
                s == old(self)@,
                tags_unique(s),
                tv == tag@,
                forall|j: int| 0 <= j < i ==> s[j].0 != tv,
            decreases self.entries@.len() - i,
        {
            if self.entries[i].tag == tag {
                let bi = self.entries[i].bytes_in;
                let bo = self.entries[i].bytes_out;
                let e = if is_in {
                    TagTraffic { tag, bytes_in: bi.saturating_add(bytes), bytes_out: bo }
                } else {
                    TagTraffic { tag, bytes_in: bi, bytes_out: bo.saturating_add(bytes) }
                };
                self.entries.set(i, e);
                proof {
                    assert(s[i as int].0 == tag@);
                    assert(self@[i as int] == entry_view(e));
                    assert(e.tag@ == tv);
                    let k = choose|k: int| 0 <= k < s.len() && s[k].0 == tv;
                    assert(k == i);
                    assert(self@ =~= absorb(s, tv, bytes, is_in));
                }
                return;
            }
            i += 1;
        }
        let e = if is_in {
            TagTraffic { tag, bytes_in: bytes, bytes_out: 0 }
        } else {
            TagTraffic { tag, bytes_in: 0, bytes_out: bytes }
        };
        self.entries.push(e);
        assert(self@ =~= absorb(s, e.tag@, bytes, is_in));
    }
}

/// Adds to `stats` what each line of a counter listing reports, as ingress bytes
/// (`is_in`) or egress bytes. Lines that report nothing are skipped.
pub fn parse_chain_stats_sum(listing: &str, stats: &mut TrafficStats, is_in: bool)
    requires
        old(stats).wf(),
    ensures
        final(stats).wf(),
        final(stats)@ == absorb_lines(old(stats)@, listing@, 0, is_in),
{
    let t = chars_of(listing);
    let n = t.len();
    if n == 0 {
        return;
    }
    let mut pos: usize = 0;
    loop
        invariant
            t@ == listing@,
            n == t@.len(),
            pos < n,
            stats.wf(),
            absorb_lines(old(stats)@, t@, 0, is_in) == absorb_lines(stats@, t@, pos as int, is_in),
        decreases n - pos,
    {
        let ghost before = stats@;
        let mut e = pos;
        while e < n && t[e] != '\n'
            invariant
                pos <= e <= n,
                n == t@.len(),
                next_newline(t@, pos as int) == next_newline(t@, e as int),
            decreases n - e,
        {
            e += 1;
        }
        let line = copy_range(&t, pos, e);
        match parse_counter_line(&line) {
            Some(rec) => stats.add_bytes(rec.0, rec.1, is_in),
            None => {},
        }
        proof {
            assert(next_newline(t@, e as int) == e as int);
            let next = if e >= n {
                n as int
            } else {
                e + 1
            };
            assert(absorb_lines(before, t@, pos as int, is_in) == absorb_lines(
                stats@,
                t@,
                next,
                is_in,
            ));
        }
        if n - e <= 1 {
            return;
        }
        pos = e + 1;
    }
}

/// Adds the counts of one address family: the ingress chain's listing, then the
/// egress chain's.
pub fn parse_family_stats(in_listing: &str, out_listing: &str, stats: &mut TrafficStats)
    requires
        old(stats).wf(),
    ensures
        final(stats).wf(),
        final(stats)@ == absorb_lines(
            absorb_lines(old(stats)@, in_listing@, 0, true),
            out_listing@,
            0,
            false,
        ),
{
    parse_chain_stats_sum(in_listing, stats, true);
    parse_chain_stats_sum(out_listing, stats, false);
}

} // verus!
