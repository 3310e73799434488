use vstd::prelude::*;

verus! {

/// The pieces of `s` between occurrences of `sep`, in order; `n` separators
/// give `n + 1` pieces, some of them possibly empty.
pub open spec fn split_spec(s: Seq<u8>, sep: u8) -> Seq<Seq<u8>>
    decreases s.len(),
{
    if s.len() == 0 {
        seq![Seq::<u8>::empty()]
    } else {
        let pieces = split_spec(s.drop_last(), sep);
        if s.last() == sep {
            pieces.push(Seq::<u8>::empty())
        } else {
            pieces.update(pieces.len() - 1, pieces.last().push(s.last()))
        }
    }
}

pub proof fn lemma_split_nonempty(s: Seq<u8>, sep: u8)
    ensures
        split_spec(s, sep).len() >= 1,
    decreases s.len(),
{
    if s.len() > 0 {
        lemma_split_nonempty(s.drop_last(), sep);
    }
}

/// Splits `s` at every occurrence of `sep`.
pub fn split_on(s: &[u8], sep: u8) -> (r: Vec<Vec<u8>>)
    ensures
        r@.map_values(|v: Vec<u8>| v@) == split_spec(s@, sep),
{
    let mut out: Vec<Vec<u8>> = Vec::new();
    let mut cur: Vec<u8> = Vec::new();
    let mut i: usize = 0;
    proof {
        assert(s@.subrange(0, 0) =~= Seq::<u8>::empty());
        assert(out@.map_values(|v: Vec<u8>| v@).push(cur@) =~= seq![Seq::<u8>::empty()]);
    }
    while i < s.len()
        invariant
            i <= s@.len(),
            out@.map_values(|v: Vec<u8>| v@).push(cur@) == split_spec(s@.subrange(0, i as int), sep),
        decreases s@.len() - i,
    {
        let c = s[i];
        let ghost before = out@.map_values(|v: Vec<u8>| v@);
        proof {
            assert(s@.subrange(0, i as int + 1).drop_last() =~= s@.subrange(0, i as int));
        }
        if c == sep {
            let ghost done = cur@;
            out.push(cur);
            cur = Vec::new();
            proof {
                assert(out@.map_values(|v: Vec<u8>| v@) =~= before.push(done));
            }
        } else {
            cur.push(c);
            proof {
                assert(out@.map_values(|v: Vec<u8>| v@) =~= before);
            }
        }
        i = i + 1;
        proof {
            assert(out@.map_values(|v: Vec<u8>| v@).push(cur@) =~= split_spec(s@.subrange(0, i as int), sep));
        }
    }
    proof {
        assert(s@.subrange(0, s@.len() as int) =~= s@);
    }
    let ghost before = out@.map_values(|v: Vec<u8>| v@);
    out.push(cur);
    proof {
        assert(out@.map_values(|v: Vec<u8>| v@) =~= before.push(cur@));
    }
    out
}

/// ASCII whitespace: space, tab, line feed, vertical tab, form feed and
/// carriage return.
pub open spec fn is_space(b: u8) -> bool {
    b == 32 || (9 <= b && b <= 13)
}

pub open spec fn trim_start_spec(s: Seq<u8>) -> Seq<u8>
    decreases s.len(),
{
    if s.len() > 0 && is_space(s[0]) {
        trim_start_spec(s.drop_first())
    } else {
        s
    }
}

pub open spec fn trim_end_spec(s: Seq<u8>) -> Seq<u8>
    decreases s.len(),
{
    if s.len() > 0 && is_space(s.last()) {
        trim_end_spec(s.drop_last())
    } else {
        s
    }
}

/// `s` without its leading and trailing whitespace.
pub open spec fn trim_spec(s: Seq<u8>) -> Seq<u8> {
    trim_end_spec(trim_start_spec(s))
}

/// The fields of a line: the trimmed line split at each single space.
pub open spec fn fields_spec(line: Seq<u8>) -> Seq<Seq<u8>> {
    split_spec(trim_spec(line), 32)
}

pub fn is_space_byte(b: u8) -> (r: bool)
    ensures
        r == is_space(b),
{
    b == 32 || (9 <= b && b <= 13)
}

/// Removes leading and trailing whitespace.
pub fn trim(s: &[u8]) -> (r: Vec<u8>)
    ensures
        r@ == trim_spec(s@),
{
    let mut lo: usize = 0;
    proof {
        assert(s@.subrange(0, s@.len() as int) =~= s@);
    }
    while lo < s.len() && is_space_byte(s[lo])
        invariant
            lo <= s@.len(),
            trim_start_spec(s@) == trim_start_spec(s@.subrange(lo as int, s@.len() as int)),
        decreases s@.len() - lo,
    {
        proof {
            assert(s@.subrange(lo as int, s@.len() as int).drop_first() =~= s@.subrange(
                lo as int + 1,
                s@.len() as int,
            ));
        }
        lo = lo + 1;
    }
    let ghost start = s@.subrange(lo as int, s@.len() as int);
    let mut hi: usize = s.len();
    proof {
        assert(start.subrange(0, start.len() as int) =~= start);
    }
    while hi > lo && is_space_byte(s[hi - 1])
        invariant
            lo <= hi <= s@.len(),
            start == s@.subrange(lo as int, s@.len() as int),
            trim_end_spec(start) == trim_end_spec(s@.subrange(lo as int, hi as int)),
        decreases hi - lo,
    {
        proof {
            assert(s@.subrange(lo as int, hi as int).drop_last() =~= s@.subrange(
                lo as int,
                hi as int - 1,
            ));
        }
        hi = hi - 1;
    }
    proof {
        let t = s@.subrange(lo as int, s@.len() as int);
        if lo < s@.len() {
            assert(!is_space(t[0]));
        }
        assert(trim_start_spec(s@) == t);
        if hi > lo {
            assert(!is_space(s@.subrange(lo as int, hi as int).last()));
        }
    }
    let mut r: Vec<u8> = Vec::new();
    let mut i: usize = lo;
    while i < hi
        invariant
            lo <= i <= hi <= s@.len(),
            r@ == s@.subrange(lo as int, i as int),
        decreases hi - i,
    {
        r.push(s[i]);
        i = i + 1;
        proof {
            assert(r@ =~= s@.subrange(lo as int, i as int));
        }
    }
    r
}

/// The fields of one line of text.
pub fn fields(line: &[u8]) -> (r: Vec<Vec<u8>>)
    ensures
        r@.map_values(|v: Vec<u8>| v@) == fields_spec(line@),
{
    let t = trim(line);
    split_on(t.as_slice(), 32)
}

pub proof fn lemma_split_len(s: Seq<u8>, sep: u8)
    ensures
        split_spec(s, sep).len() <= s.len() + 1,
    decreases s.len(),
{
    if s.len() > 0 {
        lemma_split_len(s.drop_last(), sep);
        lemma_split_nonempty(s.drop_last(), sep);
    }
}

} // verus!
