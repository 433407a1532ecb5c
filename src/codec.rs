//! Framing of a record file: one encoded record per line, each line ended
//! by a newline byte, in the order the records were published.

use vstd::prelude::*;

verus! {

/// The newline byte that ends each line.
pub const NEWLINE: u8 = 10;

/// Whether a line is free of newline bytes.
pub open spec fn is_line(l: Seq<u8>) -> bool {
    forall|i: int| 0 <= i < l.len() ==> #[trigger] l[i] != NEWLINE
}

/// Whether every line is free of newline bytes.
pub open spec fn all_lines(ls: Seq<Seq<u8>>) -> bool {
    forall|i: int| 0 <= i < ls.len() ==> is_line(#[trigger] ls[i])
}

/// The file that holds the lines: each followed by a newline.
pub open spec fn framed(ls: Seq<Seq<u8>>) -> Seq<u8>
    decreases ls.len(),
{
    if ls.len() == 0 {
        Seq::empty()
    } else {
        ls[0] + seq![NEWLINE] + framed(ls.drop_first())
    }
}

proof fn lemma_framed_push(ls: Seq<Seq<u8>>, l: Seq<u8>)
    ensures
        framed(ls.push(l)) == framed(ls) + l + seq![NEWLINE],
    decreases ls.len(),
{
    if ls.len() == 0 {
        assert(ls.push(l).drop_first() =~= Seq::<Seq<u8>>::empty());
        assert(framed(ls.push(l).drop_first()) =~= Seq::<u8>::empty());
        assert(framed(ls.push(l)) =~= l + seq![NEWLINE]);
    } else {
        assert(ls.push(l).drop_first() =~= ls.drop_first().push(l));
        lemma_framed_push(ls.drop_first(), l);
        assert(framed(ls.push(l)) =~= framed(ls) + l + seq![NEWLINE]);
    }
}

/// Framing is one to one on lines free of newlines.
proof fn lemma_framed_injective(a: Seq<Seq<u8>>, b: Seq<Seq<u8>>)
    requires
        all_lines(a),
        all_lines(b),
        framed(a) == framed(b),
    ensures
        a == b,
    decreases a.len(),
{
    if a.len() == 0 {
        if b.len() > 0 {
            assert(framed(b).len() > 0);
        }
        assert(a =~= b);
    } else if b.len() == 0 {
        assert(framed(a).len() > 0);
    } else {
        let (x, y) = (a[0], b[0]);
        let f = framed(a);
        assert(is_line(x) && is_line(y));
        if x.len() < y.len() {
            assert(f[x.len() as int] == NEWLINE);
            assert(f[x.len() as int] == y[x.len() as int]);
        } else if y.len() < x.len() {
            assert(f[y.len() as int] == NEWLINE);
            assert(f[y.len() as int] == x[y.len() as int]);
        }
        assert(x =~= f.subrange(0, x.len() as int));
        assert(y =~= f.subrange(0, y.len() as int));
        assert(framed(a.drop_first()) =~= f.subrange(x.len() + 1int, f.len() as int));
        assert(framed(b.drop_first()) =~= f.subrange(y.len() + 1int, f.len() as int));
        lemma_framed_injective(a.drop_first(), b.drop_first());
        assert(x == y);
        assert forall|i: int| 0 <= i < a.len() implies a[i] == b[i] by {
            if i > 0 {
                assert(a[i] == a.drop_first()[i - 1]);
                assert(b[i] == b.drop_first()[i - 1]);
            }
        }
        assert(a =~= b);
    }
}

/// A file with its newline added where its last line lacks one.
pub open spec fn terminated(bytes: Seq<u8>) -> Seq<u8> {
    if bytes.len() > 0 && bytes.last() != NEWLINE {
        bytes + seq![NEWLINE]
    } else {
        bytes
    }
}

/// The lines of a file: the newline-free lines whose framing is the file.
pub open spec fn decoded(bytes: Seq<u8>) -> Seq<Seq<u8>> {
    choose|ls: Seq<Seq<u8>>| all_lines(ls) && framed(ls) == terminated(bytes)
}

/// The view of a list of byte lines.
pub open spec fn lines_view(ls: Seq<Vec<u8>>) -> Seq<Seq<u8>> {
    ls.map_values(|l: Vec<u8>| l@)
}

/// Writes the lines into one file, each followed by a newline.
pub fn encode_lines(lines: &Vec<Vec<u8>>) -> (r: Vec<u8>)
    ensures
        r@ == framed(lines_view(lines@)),
{
    let mut out: Vec<u8> = Vec::new();
    let mut i: usize = 0;
    while i < lines.len()
        invariant
            i <= lines.len(),
            out@ == framed(lines_view(lines@.take(i as int))),
        decreases lines.len() - i,
    {
        let line = &lines[i];
        let ghost before = out@;
        let mut j: usize = 0;
        while j < line.len()
            invariant
                j <= line.len(),
                out@ == before + line@.take(j as int),
            decreases line.len() - j,
        {
            out.push(line[j]);
            j = j + 1;
            assert(out@ =~= before + line@.take(j as int));
        }
        out.push(NEWLINE);
        proof {
            assert(line@.take(j as int) =~= line@);
            assert(lines_view(lines@.take(i as int + 1)) =~= lines_view(lines@.take(i as int)).push(line@));
            lemma_framed_push(lines_view(lines@.take(i as int)), line@);
            assert(out@ =~= before + line@ + seq![NEWLINE]);
        }
        i = i + 1;
    }
    assert(lines@.take(i as int) =~= lines@);
    out
}

/// Splits a file into its lines. A last line that lacks its newline still
/// counts as a line.
pub fn decode_lines(bytes: &Vec<u8>) -> (r: Vec<Vec<u8>>)
    ensures
        all_lines(lines_view(r@)),
        bytes@.len() == 0 || bytes@.last() == NEWLINE ==> framed(lines_view(r@)) == bytes@,
        bytes@.len() > 0 && bytes@.last() != NEWLINE ==> framed(lines_view(r@)) == bytes@ + seq![NEWLINE],
        lines_view(r@) == decoded(bytes@),
{
    let mut out: Vec<Vec<u8>> = Vec::new();
    let mut cur: Vec<u8> = Vec::new();
    let mut i: usize = 0;
    while i < bytes.len()
        invariant
            i <= bytes.len(),
            all_lines(lines_view(out@)),
            is_line(cur@),
            framed(lines_view(out@)) + cur@ == bytes@.take(i as int),
        decreases bytes.len() - i,
    {
        let b = bytes[i];
        if b == NEWLINE {
            let ghost before = lines_view(out@);
            let ghost line = cur@;
            out.push(cur);
            cur = Vec::new();
            proof {
                assert(lines_view(out@) =~= before.push(line));
                lemma_framed_push(before, line);
                assert(framed(lines_view(out@)) + cur@ =~= bytes@.take(i as int + 1));
            }
        } else {
            let ghost before = cur@;
            cur.push(b);
            assert(framed(lines_view(out@)) + cur@ =~= bytes@.take(i as int + 1));
        }
        i = i + 1;
    }
    assert(bytes@.take(i as int) =~= bytes@);
    if cur.len() > 0 {
        let ghost before = lines_view(out@);
        let ghost line = cur@;
        proof {
            assert(bytes@.last() == line.last());
        }
        out.push(cur);
        proof {
            assert(lines_view(out@) =~= before.push(line));
            lemma_framed_push(before, line);
        }
    } else {
        assert(framed(lines_view(out@)) =~= bytes@);
        proof {
            if bytes@.len() > 0 {
                let ls = lines_view(out@);
                assert(ls.len() > 0);
                assert(ls =~= ls.drop_last().push(ls.last()));
                lemma_framed_push(ls.drop_last(), ls.last());
                assert(bytes@.last() == NEWLINE);
            }
        }
    }
    proof {
        let d = decoded(bytes@);
        assert(all_lines(d) && framed(d) == terminated(bytes@));
        lemma_framed_injective(d, lines_view(out@));
    }
    out
}

/// Decoding a file written from lines free of newlines gives back exactly
/// those lines.
pub proof fn lemma_round_trip(ls: Seq<Seq<u8>>)
    requires
        all_lines(ls),
    ensures
        decoded(framed(ls)) == ls,
{
    let f = framed(ls);
    if f.len() > 0 {
        assert(ls =~= ls.drop_last().push(ls.last()));
        lemma_framed_push(ls.drop_last(), ls.last());
    }
    assert(terminated(f) == f);
    let d = decoded(f);
    assert(all_lines(d) && framed(d) == f);
    lemma_framed_injective(d, ls);
}

} // verus!
