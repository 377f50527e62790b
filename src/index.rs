use vstd::prelude::*;

verus! {

/// The line-feed byte that ends each line of the index.
pub const LINE_FEED: u8 = 10;

/// The views of a list of byte strings.
pub open spec fn byte_views(v: Seq<Vec<u8>>) -> Seq<Seq<u8>> {
    v.map_values(|x: Vec<u8>| x@)
}

/// The pieces of `b` between line feeds, in order: one more than there are
/// line feeds, so an empty buffer is one empty piece and a trailing line
/// feed ends with an empty piece.
pub open spec fn lines_of(b: Seq<u8>) -> Seq<Seq<u8>>
    decreases b.len(),
{
    if b.len() == 0 {
        seq![Seq::empty()]
    } else {
        let s = lines_of(b.drop_last());
        if b.last() == LINE_FEED {
            s.push(Seq::empty())
        } else {
            s.update(s.len() - 1, s.last().push(b.last()))
        }
    }
}

/// The package names that an index body holds: its lines after the first
/// (a header), leaving out the empty ones, in the order of the index.
pub open spec fn index_records(b: Seq<u8>) -> Seq<Seq<u8>> {
    lines_of(b).skip(1).filter(|l: Seq<u8>| l.len() > 0)
}

/// There is always at least one piece.
pub proof fn lemma_lines_nonempty(b: Seq<u8>)
    ensures
        lines_of(b).len() >= 1,
    decreases b.len(),
{
    if b.len() > 0 {
        lemma_lines_nonempty(b.drop_last());
    }
}

/// Splits a buffer at every line feed.
pub fn split_lines(body: &Vec<u8>) -> (r: Vec<Vec<u8>>)
    ensures
        byte_views(r@) == lines_of(body@),
{
    let mut done: Vec<Vec<u8>> = Vec::new();
    let mut cur: Vec<u8> = Vec::new();
    let mut i: usize = 0;
    assert(body@.subrange(0, 0) =~= Seq::<u8>::empty());
    assert(byte_views(done@).push(cur@) =~= seq![Seq::<u8>::empty()]);
    while i < body.len()
        invariant
            i <= body@.len(),
            byte_views(done@).push(cur@) == lines_of(body@.subrange(0, i as int)),
        decreases body@.len() - i,
    {
        let c = body[i];
        let ghost prefix = body@.subrange(0, i as int);
        let ghost next = body@.subrange(0, i + 1);
        assert(next.drop_last() =~= prefix);
        assert(next.last() == c);
        proof {
            lemma_lines_nonempty(prefix);
        }
        if c == LINE_FEED {
            done.push(cur);
            cur = Vec::new();
            assert(byte_views(done@).push(cur@) =~= lines_of(prefix).push(Seq::empty()));
        } else {
            cur.push(c);
            assert(byte_views(done@).push(cur@) =~= lines_of(prefix).update(
                lines_of(prefix).len() - 1,
                lines_of(prefix).last().push(c),
            ));
        }
        i = i + 1;
    }
    assert(body@.subrange(0, body@.len() as int) =~= body@);
    done.push(cur);
    done
}

/// Reads the package names out of a decoded index body: every line after
/// the first, leaving out the empty ones, in the order of the index.
pub fn parse_index(body: &Vec<u8>) -> (r: Vec<Vec<u8>>)
    ensures
        byte_views(r@) == index_records(body@),
{
    let lines = split_lines(body);
    proof {
        lemma_lines_nonempty(body@);
    }
    let ghost all = byte_views(lines@);
    let ghost nonempty = |l: Seq<u8>| l.len() > 0;
    let mut r: Vec<Vec<u8>> = Vec::new();
    let mut i: usize = 1;
    assert(all.subrange(1, 1) =~= Seq::<Seq<u8>>::empty());
    proof {
        reveal(Seq::filter);
    }
    assert(Seq::<Seq<u8>>::empty().filter(nonempty) =~= Seq::<Seq<u8>>::empty());
    while i < lines.len()
        invariant
            1 <= i <= lines@.len(),
            all == byte_views(lines@),
            nonempty == (|l: Seq<u8>| l.len() > 0),
            byte_views(r@) == all.subrange(1, i as int).filter(nonempty),
        decreases lines@.len() - i,
    {
        let ghost before = all.subrange(1, i as int);
        let ghost after = all.subrange(1, i + 1);
        assert(after.drop_last() =~= before);
        assert(after.last() == lines@[i as int]@);
        proof {
            reveal(Seq::filter);
        }
        if lines[i].len() > 0 {
            r.push(lines[i].clone());
            assert(byte_views(r@) =~= before.filter(nonempty).push(lines@[i as int]@));
        }
        i = i + 1;
    }
    assert(all.subrange(1, all.len() as int) =~= all.skip(1));
    r
}

} // verus!
