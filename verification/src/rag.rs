//! Searchable document memory: cutting a document into overlapping pieces
//! for embedding, choosing the embedding model, and the snippet shown with a
//! hit.
use crate::text::{is_blank, string_of_range, to_chars, trim_range, views, trim};
use vstd::prelude::*;

verus! {

// ---------------------------------------------------------------------
// Specifications
// ---------------------------------------------------------------------

/// The pieces of `s` from position `start` on: each at most `size`
/// characters, each next one starting `overlap` characters before the end
/// of the previous one, until one reaches the end of `s`.
pub open spec fn chunks_from(s: Seq<char>, start: nat, size: nat, overlap: nat) -> Seq<Seq<char>>
    decreases s.len() - start,
{
    if start >= s.len() {
        Seq::empty()
    } else {
        let end = if start + size < s.len() {
            start + size
        } else {
            s.len()
        };
        if end == s.len() || size <= overlap {
            seq![s.subrange(start as int, end as int)]
        } else {
            seq![s.subrange(start as int, end as int)] + chunks_from(
                s,
                (end - overlap) as nat,
                size,
                overlap,
            )
        }
    }
}

/// The pieces `chunk_text` cuts `s` into.
pub open spec fn chunks(s: Seq<char>, size: nat, overlap: nat) -> Seq<Seq<char>> {
    chunks_from(s, 0, size, overlap)
}

/// The inputs on which `chunk_text` terminates: either one piece covers the
/// text or each piece moves the start forward.
pub open spec fn chunking_terminates(n: nat, size: nat, overlap: nat) -> bool {
    n <= size || overlap < size
}

/// The pieces glued back together, dropping the `overlap` characters each
/// piece after the first repeats from its predecessor.
pub open spec fn reassemble(cs: Seq<Seq<char>>, overlap: nat) -> Seq<char>
    decreases cs.len(),
{
    if cs.len() == 0 {
        Seq::empty()
    } else {
        cs[0] + reassemble_tail(cs.drop_first(), overlap)
    }
}

/// The pieces after the first, each without its first `overlap` characters.
pub open spec fn reassemble_tail(cs: Seq<Seq<char>>, overlap: nat) -> Seq<char>
    decreases cs.len(),
{
    if cs.len() == 0 {
        Seq::empty()
    } else {
        cs[0].skip(overlap as int) + reassemble_tail(cs.drop_first(), overlap)
    }
}

/// The pieces that hold more than white space, in order.
pub open spec fn non_blank(cs: Seq<Seq<char>>) -> Seq<Seq<char>>
    decreases cs.len(),
{
    if cs.len() == 0 {
        cs
    } else {
        let r = non_blank(cs.drop_last());
        if is_blank(cs.last()) {
            r
        } else {
            r.push(cs.last())
        }
    }
}

/// `nomic-embed-text`.
pub open spec fn default_embed_model() -> Seq<char> {
    "nomic-embed-text"@
}

// ---------------------------------------------------------------------
// Executable functions
// ---------------------------------------------------------------------

/// Cuts `text` into pieces of at most `size` characters, each overlapping
/// the previous one by `overlap` characters, the last one ending at the end
/// of the text.
pub fn chunk_text(text: &str, size: usize, overlap: usize) -> (r: Vec<String>)
    requires
        chunking_terminates(text@.len(), size as nat, overlap as nat),
    ensures
        crate::text::str_views(r@) == chunks(text@, size as nat, overlap as nat),
{
    let chars = to_chars(text);
    let n = chars.len();
    let mut out: Vec<String> = Vec::new();
    let mut start: usize = 0;
    while start < n
        invariant
            n == chars.len(),
            chars@ == text@,
            start <= n,
            chunking_terminates(n as nat, size as nat, overlap as nat),
            start == 0 || start == n || overlap < size,
            chunks(text@, size as nat, overlap as nat) == crate::text::str_views(out@)
                + chunks_from(text@, start as nat, size as nat, overlap as nat),
        decreases n - start,
    {
        let end = if size < n - start {
            start + size
        } else {
            n
        };
        let piece = string_of_range(&chars, start, end);
        let ghost before = crate::text::str_views(out@);
        out.push(piece);
        proof {
            assert(crate::text::str_views(out@) =~= before.push(
                text@.subrange(start as int, end as int),
            ));
        }
        if end == n {
            proof {
                assert(chunks_from(text@, start as nat, size as nat, overlap as nat) =~= seq![
                    text@.subrange(start as int, end as int),
                ]);
                assert(chunks_from(text@, n as nat, size as nat, overlap as nat) =~= Seq::<
                    Seq<char>,
                >::empty());
                assert(before + seq![text@.subrange(start as int, end as int)] =~= before.push(
                    text@.subrange(start as int, end as int),
                ));
            }
            start = n;
        } else {
            let next = if end > overlap {
                end - overlap
            } else {
                0
            };
            proof {
                assert(overlap < size);
                assert(next == end - overlap);
                assert(before + (seq![text@.subrange(start as int, end as int)] + chunks_from(
                    text@,
                    next as nat,
                    size as nat,
                    overlap as nat,
                )) =~= before.push(text@.subrange(start as int, end as int)) + chunks_from(
                    text@,
                    next as nat,
                    size as nat,
                    overlap as nat,
                ));
            }
            start = next;
        }
    }
    proof {
        assert(chunks_from(text@, start as nat, size as nat, overlap as nat) =~= Seq::<
            Seq<char>,
        >::empty());
        assert(crate::text::str_views(out@) + Seq::<Seq<char>>::empty() =~= crate::text::str_views(
            out@,
        ));
    }
    out
}

/// The pieces of a document that get indexed: pieces of 800 characters
/// overlapping by 100, without those holding only white space.
pub fn chunks_to_index(text: &str) -> (r: Vec<String>)
    ensures
        crate::text::str_views(r@) == non_blank(chunks(text@, 800, 100)),
{
    let all = chunk_text(text, 800, 100);
    let mut out: Vec<String> = Vec::new();
    let mut i: usize = 0;
    proof {
        assert(crate::text::str_views(all@).take(0) =~= Seq::<Seq<char>>::empty());
    }
    while i < all.len()
        invariant
            i <= all.len(),
            crate::text::str_views(all@) == chunks(text@, 800, 100),
            crate::text::str_views(out@) == non_blank(crate::text::str_views(all@).take(i as int)),
        decreases all.len() - i,
    {
        let v = to_chars(all[i].as_str());
        let (a, b) = trim_range(&v, 0, v.len());
        proof {
            assert(v@.subrange(0, v.len() as int) =~= v@);
            let t = crate::text::str_views(all@).take(i + 1);
            assert(t.drop_last() =~= crate::text::str_views(all@).take(i as int));
            assert(t.last() == all@[i as int]@);
        }
        if a < b {
            let ghost before = crate::text::str_views(out@);
            out.push(all[i].clone());
            proof {
                assert(crate::text::str_views(out@) =~= before.push(all@[i as int]@));
            }
        }
        i = i + 1;
    }
    proof {
        assert(crate::text::str_views(all@).take(all.len() as int) =~= crate::text::str_views(
            all@,
        ));
    }
    out
}

/// The embedding model to use: the given one, or `nomic-embed-text` when
/// none is given.
pub fn default_model(m: &str) -> (r: String)
    ensures
        r@ == (if m@.len() == 0 {
            default_embed_model()
        } else {
            m@
        }),
{
    if m.is_empty() {
        "nomic-embed-text".to_owned()
    } else {
        m.to_owned()
    }
}

/// The first 240 characters of a piece, shown with a search hit.
pub fn snippet(text: &str) -> (r: String)
    ensures
        r@ == (if text@.len() <= 240 {
            text@
        } else {
            text@.take(240)
        }),
{
    let v = to_chars(text);
    let end = if v.len() <= 240 {
        v.len()
    } else {
        240
    };
    let r = string_of_range(&v, 0, end);
    proof {
        assert(v@.subrange(0, v.len() as int) =~= v@);
        assert(v@.subrange(0, 240) =~= v@.take(240));
    }
    r
}

/// The memory note of an indexed document.
pub fn index_note(path: &str, count: usize) -> (r: String)
    ensures
        r@ == "'"@ + path@ + "' belgesini aranabilir hafızaya indeksledi ("@ + crate::text::decimal(count as nat)
            + " parça)"@,
{
    let mut r = "'".to_owned();
    crate::text::append_str(&mut r, path);
    crate::text::append_str(&mut r, "' belgesini aranabilir hafızaya indeksledi (");
    crate::text::push_decimal(&mut r, count as u64);
    crate::text::append_str(&mut r, " parça)");
    r
}

/// The error when the engine gave no embedding.
pub fn embedding_missing_error() -> (r: String)
    ensures
        r@ == "Embedding alınamadı — model kurulu mu? (Modeller sekmesinden 'nomic-embed-text' indir)"@,
{
    "Embedding alınamadı — model kurulu mu? (Modeller sekmesinden 'nomic-embed-text' indir)".to_owned()
}

// ---------------------------------------------------------------------
// Laws
// ---------------------------------------------------------------------

/// Every piece holds at most `size` characters, every piece but the last
/// holds exactly `size`, and gluing the pieces back together while dropping
/// the repeated overlap gives the text back.
pub proof fn lemma_chunks_reassemble(s: Seq<char>, size: nat, overlap: nat)
    requires
        overlap < size,
    ensures
        reassemble(chunks(s, size, overlap), overlap) == s,
        forall|k: int|
            0 <= k < chunks(s, size, overlap).len() ==> #[trigger] chunks(s, size, overlap)[k].len()
                <= size,
{
    lemma_chunks_from(s, 0, size, overlap);
    assert(s.subrange(0, s.len() as int) =~= s);
}

/// The pieces from `start` on glue back to `s[start..]` and respect the size.
proof fn lemma_chunks_from(s: Seq<char>, start: nat, size: nat, overlap: nat)
    requires
        overlap < size,
        start <= s.len(),
    ensures
        reassemble(chunks_from(s, start, size, overlap), overlap) == s.subrange(
            start as int,
            s.len() as int,
        ),
        forall|k: int|
            0 <= k < chunks_from(s, start, size, overlap).len() ==> #[trigger] chunks_from(
                s,
                start,
                size,
                overlap,
            )[k].len() <= size,
    decreases s.len() - start,
{
    let cs = chunks_from(s, start, size, overlap);
    if start >= s.len() {
        assert(s.subrange(start as int, s.len() as int) =~= Seq::<char>::empty());
    } else {
        let end = if start + size < s.len() {
            start + size
        } else {
            s.len()
        };
        let first = s.subrange(start as int, end as int);
        if end == s.len() {
            assert(cs =~= seq![first]);
            assert(cs.drop_first() =~= Seq::<Seq<char>>::empty());
            assert(first + Seq::<char>::empty() =~= first);
        } else {
            let next = (end - overlap) as nat;
            let rest = chunks_from(s, next, size, overlap);
            lemma_chunks_from(s, next, size, overlap);
            assert(cs =~= seq![first] + rest);
            assert(cs.drop_first() =~= rest);
            lemma_tail_of_chunks(s, next, size, overlap);
            assert(reassemble_tail(rest, overlap) == s.subrange(end as int, s.len() as int));
            assert(first + s.subrange(end as int, s.len() as int) =~= s.subrange(
                start as int,
                s.len() as int,
            ));
            assert forall|k: int| 0 <= k < cs.len() implies #[trigger] cs[k].len() <= size by {
                if k > 0 {
                    assert(cs[k] == rest[k - 1]);
                }
            }
        }
    }
}

/// Without its first piece's overlap, the pieces from a start that lies
/// `overlap` before the previous end glue to the text after that end.
proof fn lemma_tail_of_chunks(s: Seq<char>, next: nat, size: nat, overlap: nat)
    requires
        overlap < size,
        next + overlap < s.len(),
        reassemble(chunks_from(s, next, size, overlap), overlap) == s.subrange(
            next as int,
            s.len() as int,
        ),
    ensures
        reassemble_tail(chunks_from(s, next, size, overlap), overlap) == s.subrange(
            (next + overlap) as int,
            s.len() as int,
        ),
{
    let cs = chunks_from(s, next, size, overlap);
    let end = if next + size < s.len() {
        next + size
    } else {
        s.len()
    };
    let first = s.subrange(next as int, end as int);
    assert(cs[0] == first);
    assert(first.len() >= overlap);
    assert(reassemble(cs, overlap) == first + reassemble_tail(cs.drop_first(), overlap));
    assert(reassemble_tail(cs, overlap) == first.skip(overlap as int) + reassemble_tail(
        cs.drop_first(),
        overlap,
    ));
    assert(first.skip(overlap as int) =~= s.subrange((next + overlap) as int, end as int));
    assert(s.subrange(next as int, s.len() as int) == first + reassemble_tail(
        cs.drop_first(),
        overlap,
    ));
    let x = reassemble_tail(cs.drop_first(), overlap);
    let a = s.subrange(next as int, s.len() as int);
    assert((first + x).skip(first.len() as int) =~= x);
    assert(a.skip(first.len() as int) =~= s.subrange(end as int, s.len() as int));
    assert(x =~= s.subrange(end as int, s.len() as int));
    assert(s.subrange((next + overlap) as int, end as int) + s.subrange(end as int, s.len() as int)
        =~= s.subrange((next + overlap) as int, s.len() as int));
}

} // verus!
