//! The concurrent pipeline's decision core: batch merging as the single
//! writer performs it, with its ordering guarantees, the two throttling
//! decisions, the pipeline-wide fragment map, and batch rendering.

use vstd::prelude::*;

verus! {

use crate::def::{FragV, Fragment};
use crate::text::str_eq_str;
use vstd::multiset::Multiset;
use vstd::seq_lib::{
    commutative_foldr, lemma_flatten_concat, lemma_fold_right_permutation,
    lemma_multiset_commutative,
};
use vstd::string::StringExecFns;

/// Cap on in-flight worker tasks.
pub const WORKER_CAP: i16 = 8;

/// Capacity of the batch queue between workers and the writer.
pub const QUEUE_CAP: usize = 100;

/// Whether the dispatcher may start another worker.
pub fn can_spawn_worker(in_flight: i16) -> (r: bool)
    ensures
        r == (in_flight < WORKER_CAP),
{
    in_flight < WORKER_CAP
}

/// Whether a worker may push its batch onto the queue.
pub fn can_push_batch(queue_len: usize) -> (r: bool)
    ensures
        r == (queue_len < QUEUE_CAP),
{
    queue_len < QUEUE_CAP
}

/// Whether the writer may stop: the dispatcher has cleared the active
/// flag, and the queue was then observed empty — in that order, so the
/// writer cannot exit while a batch is still being pushed.
pub fn writer_should_stop(active: bool, queue_empty: bool) -> (r: bool)
    ensures
        r == (!active && queue_empty),
{
    !active && queue_empty
}

/// Whether the directory scan routes a path into the pipeline: the
/// mapping files are those named with the `.xml` extension.
pub fn is_xml_file(path: &str) -> (r: bool)
    ensures
        r == (".xml"@.len() <= path@.len() && crate::text::match_at(
            path@,
            ".xml"@,
            path@.len() - ".xml"@.len(),
        )),
{
    crate::text::ends_with_literal(path, ".xml")
}

/// The pipeline-wide fragment map after one registration: an entry
/// with the same qualified id is overwritten, a new id is appended.
pub open spec fn spec_upsert(frags: Seq<FragV>, f: FragV) -> Seq<FragV>
    decreases frags.len(),
{
    if frags.len() == 0 {
        seq![f]
    } else if frags[0].id == f.id {
        seq![f] + frags.drop_first()
    } else {
        seq![frags[0]] + spec_upsert(frags.drop_first(), f)
    }
}

/// The map after registering a whole file's fragments, in file order.
pub open spec fn spec_merge_fragments(g: Seq<FragV>, fs: Seq<FragV>, i: int) -> Seq<FragV>
    decreases fs.len() - i,
{
    if 0 <= i < fs.len() {
        spec_merge_fragments(spec_upsert(g, fs[i]), fs, i + 1)
    } else {
        g
    }
}

/// An upsert that finds its id at index `i` updates that entry.
proof fn lemma_upsert_found(frags: Seq<FragV>, f: FragV, i: int)
    requires
        0 <= i < frags.len(),
        frags[i].id == f.id,
        forall|k: int| 0 <= k < i ==> frags[k].id != f.id,
    ensures
        spec_upsert(frags, f) == frags.update(i, f),
    decreases i,
{
    if i == 0 {
        assert(seq![f] + frags.drop_first() =~= frags.update(0, f));
    } else {
        assert(frags.drop_first()[i - 1].id == f.id);
        lemma_upsert_found(frags.drop_first(), f, i - 1);
        assert(seq![frags[0]] + frags.drop_first().update(i - 1, f) =~= frags.update(i, f));
    }
}

/// An upsert whose id is absent appends.
proof fn lemma_upsert_absent(frags: Seq<FragV>, f: FragV)
    requires
        forall|k: int| 0 <= k < frags.len() ==> frags[k].id != f.id,
    ensures
        spec_upsert(frags, f) == frags.push(f),
    decreases frags.len(),
{
    if frags.len() == 0 {
        assert(seq![f] =~= frags.push(f));
    } else {
        lemma_upsert_absent(frags.drop_first(), f);
        assert(seq![frags[0]] + frags.drop_first().push(f) =~= frags.push(f));
    }
}

/// Registers one fragment in the pipeline-wide map, overwriting the
/// entry with the same qualified id if one is there.
pub fn upsert_global_fragment(global: &mut Vec<Fragment>, frag: &Fragment)
    ensures
        final(global).deep_view() == spec_upsert(old(global).deep_view(), frag@),
{
    let ghost gv = old(global).deep_view();
    let ghost fv = frag@;
    let owned = Fragment { id: frag.id.as_str().to_owned(), text: frag.text.as_str().to_owned() };
    proof {
        assert(owned@ == fv);
    }
    let mut i: usize = 0;
    proof {
        assert(gv.len() == old(global)@.len());
    }
    while i < global.len()
        invariant
            0 <= i <= global.len(),
            *global == *old(global),
            gv == global.deep_view(),
            gv.len() == global@.len(),
            fv == frag@,
            owned@ == fv,
            forall|k: int| 0 <= k < i ==> gv[k].id != fv.id,
        decreases global.len() - i,
    {
        proof {
            assert(gv[i as int] == global@[i as int].deep_view());
        }
        if str_eq_str(global[i].id.as_str(), frag.id.as_str()) {
            global.remove(i);
            global.insert(i, owned);
            proof {
                lemma_upsert_found(gv, fv, i as int);
                assert(global@ =~= old(global)@.update(i as int, owned));
                assert(global@.len() == old(global)@.len());
                assert forall|k: int| 0 <= k < global@.len() implies #[trigger] global.deep_view()[k]
                    == gv.update(i as int, fv)[k] by {
                    assert(global.deep_view()[k] == global@[k].deep_view());
                    if k == i as int {
                        assert(global@[k] == old(global)@.update(i as int, owned)[k]);
                        assert(global@[k] == owned);
                        assert(owned@ == fv);
                    } else {
                        assert(global@[k] == old(global)@.update(i as int, owned)[k]);
                        assert(global@[k] == old(global)@[k]);
                        assert(gv[k] == old(global)@[k].deep_view());
                        assert(gv.update(i as int, fv)[k] == gv[k]);
                    }
                }
                assert(global.deep_view() =~= gv.update(i as int, fv));
            }
            return ;
        }
        i = i + 1;
    }
    global.push(owned);
    proof {
        lemma_upsert_absent(gv, fv);
        assert(final(global).deep_view() =~= gv.push(fv));
    }
}

/// Merges one file's fragments into the pipeline-wide map, in file
/// order: on colliding qualified ids the later registration wins, as
/// the shared map's guarded insert does.
pub fn merge_global_fragments(global: &mut Vec<Fragment>, frags: &Vec<Fragment>)
    ensures
        final(global).deep_view() == spec_merge_fragments(
            old(global).deep_view(),
            frags.deep_view(),
            0,
        ),
{
    let ghost fv = frags.deep_view();
    let mut i: usize = 0;
    proof {
        assert(fv.len() == frags@.len());
    }
    while i < frags.len()
        invariant
            0 <= i <= frags.len(),
            fv == frags.deep_view(),
            fv.len() == frags@.len(),
            spec_merge_fragments(old(global).deep_view(), fv, 0) == spec_merge_fragments(
                global.deep_view(),
                fv,
                i as int,
            ),
        decreases frags.len() - i,
    {
        proof {
            assert(fv[i as int] == frags@[i as int].deep_view());
        }
        upsert_global_fragment(global, &frags[i]);
        i = i + 1;
    }
}

/// What the single writer emits: every batch's lines, batch after
/// batch in the order the batches arrived, each batch one contiguous
/// block.
pub fn merge_batches(batches: &Vec<Vec<String>>) -> (r: Vec<String>)
    ensures
        r.deep_view() == batches.deep_view().flatten(),
{
    let ghost bv = batches.deep_view();
    let mut out: Vec<String> = Vec::new();
    let mut i: usize = 0;
    proof {
        assert(bv.len() == batches@.len());
        assert(out.deep_view() =~= bv.subrange(0, 0).flatten());
    }
    while i < batches.len()
        invariant
            0 <= i <= batches.len(),
            bv == batches.deep_view(),
            bv.len() == batches@.len(),
            out.deep_view() == bv.subrange(0, i as int).flatten(),
        decreases batches.len() - i,
    {
        let ghost pre = out.deep_view();
        proof {
            assert(bv[i as int] == batches@[i as int].deep_view());
        }
        let batch = &batches[i];
        let ghost lv = batch.deep_view();
        let mut j: usize = 0;
        proof {
            assert(lv.len() == batch@.len());
            assert(out.deep_view() =~= pre + lv.subrange(0, 0));
        }
        while j < batch.len()
            invariant
                0 <= j <= batch.len(),
                lv == batch.deep_view(),
                lv.len() == batch@.len(),
                out.deep_view() == pre + lv.subrange(0, j as int),
            decreases batch.len() - j,
        {
            proof {
                assert(lv[j as int] == batch@[j as int].deep_view());
            }
            let ghost prev = out@;
            let ghost prevdv = out.deep_view();
            out.push(batch[j].as_str().to_owned());
            proof {
                assert(prevdv == pre + lv.subrange(0, j as int));
                assert(out@.len() == prev.len() + 1);
                assert(prevdv.len() == prev.len());
                assert(prev.len() == pre.len() + j);
                assert(out@[prev.len() as int]@ == lv[j as int]);
                assert(out.deep_view()[prev.len() as int] == out@[prev.len() as int].deep_view());
                assert forall|k: int| 0 <= k < prev.len() implies #[trigger] out.deep_view()[k]
                    == prevdv[k] by {
                    assert(out@[k] == prev[k]);
                    assert(out.deep_view()[k] == out@[k].deep_view());
                    assert(prevdv[k] == prev[k].deep_view());
                }
                assert(out.deep_view() =~= pre + lv.subrange(0, j as int + 1));
            }
            j = j + 1;
        }
        proof {
            assert(lv.subrange(0, lv.len() as int) =~= lv);
            lemma_flatten_concat(bv.subrange(0, i as int), seq![lv]);
            seq![lv].lemma_flatten_one_element();
            assert(bv.subrange(0, i as int) + seq![lv] =~= bv.subrange(0, i as int + 1));
            assert(out.deep_view() =~= bv.subrange(0, i as int + 1).flatten());
        }
        i = i + 1;
    }
    proof {
        assert(bv.subrange(0, bv.len() as int) =~= bv);
    }
    out
}

/// Law: batch atomicity. In the merged output every batch stands as
/// one contiguous block: the lines before it are exactly the earlier
/// batches' lines, the lines after it exactly the later batches'.
pub proof fn lemma_batches_contiguous(bs: Seq<Seq<Seq<char>>>, i: int)
    requires
        0 <= i < bs.len(),
    ensures
        bs.flatten() == bs.subrange(0, i).flatten() + bs[i] + bs.subrange(
            i + 1,
            bs.len() as int,
        ).flatten(),
{
    let tail = bs.subrange(i, bs.len() as int);
    assert(bs =~= bs.subrange(0, i) + tail);
    lemma_flatten_concat(bs.subrange(0, i), tail);
    assert(tail =~= seq![bs[i]] + bs.subrange(i + 1, bs.len() as int));
    lemma_flatten_concat(seq![bs[i]], bs.subrange(i + 1, bs.len() as int));
    seq![bs[i]].lemma_flatten_one_element();
    assert(bs.flatten() =~= bs.subrange(0, i).flatten() + bs[i] + bs.subrange(
        i + 1,
        bs.len() as int,
    ).flatten());
}

/// Folding batches into the multiset of their lines.
pub open spec fn batch_lines_fold(b: Seq<Seq<char>>, m: Multiset<Seq<char>>) -> Multiset<
    Seq<char>,
> {
    m.add(b.to_multiset())
}

/// The lines of a merged output, counted as a multiset, are the fold
/// of the batches' line multisets.
proof fn lemma_flatten_multiset_fold(bs: Seq<Seq<Seq<char>>>)
    ensures
        bs.flatten().to_multiset() == bs.fold_right(
            |b: Seq<Seq<char>>, m: Multiset<Seq<char>>| batch_lines_fold(b, m),
            Multiset::<Seq<char>>::empty(),
        ),
    decreases bs.len(),
{
    let f = |b: Seq<Seq<char>>, m: Multiset<Seq<char>>| batch_lines_fold(b, m);
    if bs.len() == 0 {
        assert(bs.flatten().to_multiset() =~= Multiset::<Seq<char>>::empty()) by {
            vstd::seq_lib::to_multiset_len(bs.flatten());
        }
    } else {
        let last = bs.last();
        let init = bs.drop_last();
        assert(bs =~= init + seq![last]);
        lemma_flatten_concat(init, seq![last]);
        seq![last].lemma_flatten_one_element();
        lemma_multiset_commutative(init.flatten(), last);
        lemma_flatten_multiset_fold(init);
        assert(commutative_foldr(f)) by {
            lemma_batch_fold_commutes();
        }
        init.lemma_fold_right_commute_one(last, f, Multiset::<Seq<char>>::empty());
        assert(bs.fold_right(f, Multiset::<Seq<char>>::empty()) == init.fold_right(
            f,
            f(last, Multiset::<Seq<char>>::empty()),
        ));
        assert(bs.flatten().to_multiset() =~= init.flatten().to_multiset().add(
            last.to_multiset(),
        ));
    }
}

/// The fold over batch line multisets is commutative.
proof fn lemma_batch_fold_commutes()
    ensures
        commutative_foldr(
            |b: Seq<Seq<char>>, m: Multiset<Seq<char>>| batch_lines_fold(b, m),
        ),
{
    let f = |b: Seq<Seq<char>>, m: Multiset<Seq<char>>| batch_lines_fold(b, m);
    assert forall|x: Seq<Seq<char>>, y: Seq<Seq<char>>, v: Multiset<Seq<char>>| #[trigger] f(
        x,
        f(y, v),
    ) == f(y, f(x, v)) by {
        assert(v.add(y.to_multiset()).add(x.to_multiset()) =~= v.add(x.to_multiset()).add(
            y.to_multiset(),
        ));
    }
}

/// Law: parallelism changes ordering, never content. Two batch
/// sequences holding the same batches (as a multiset) merge to outputs
/// with the same lines (as a multiset); in particular, processing N
/// files concurrently yields exactly the lines that processing them
/// one by one yields, reordered at worst.
pub proof fn lemma_merge_content_order_free(bs1: Seq<Seq<Seq<char>>>, bs2: Seq<Seq<Seq<char>>>)
    requires
        bs1.to_multiset() == bs2.to_multiset(),
    ensures
        bs1.flatten().to_multiset() == bs2.flatten().to_multiset(),
{
    let f = |b: Seq<Seq<char>>, m: Multiset<Seq<char>>| batch_lines_fold(b, m);
    lemma_flatten_multiset_fold(bs1);
    lemma_flatten_multiset_fold(bs2);
    assert(commutative_foldr(f)) by {
        lemma_batch_fold_commutes();
    }
    lemma_fold_right_permutation(bs1, bs2, f, Multiset::<Seq<char>>::empty());
}

/// The text the writer appends for the lines from index `i` on: each
/// line followed by a newline.
pub open spec fn spec_render_lines(lines: Seq<Seq<char>>, i: int) -> Seq<char>
    decreases lines.len() - i,
{
    if 0 <= i < lines.len() {
        lines[i] + "\n"@ + spec_render_lines(lines, i + 1)
    } else {
        Seq::<char>::empty()
    }
}

/// The text the writer appends for one batch: every line with a
/// newline, then a blank separator line; an empty batch writes
/// nothing at all.
pub open spec fn spec_render_batch(lines: Seq<Seq<char>>) -> Seq<char> {
    if lines.len() == 0 {
        Seq::<char>::empty()
    } else {
        spec_render_lines(lines, 0) + "\n"@
    }
}

/// Renders one batch as the text the writer appends to the output
/// file.
pub fn render_batch(batch: &Vec<String>) -> (r: String)
    ensures
        r@ == spec_render_batch(batch.deep_view()),
{
    let ghost lv = batch.deep_view();
    if batch.len() == 0 {
        return String::new();
    }
    let mut s = String::new();
    let mut i: usize = 0;
    proof {
        assert(lv.len() == batch@.len());
        assert(Seq::<char>::empty() + spec_render_lines(lv, 0) =~= spec_render_lines(lv, 0));
    }
    while i < batch.len()
        invariant
            0 <= i <= batch.len(),
            lv == batch.deep_view(),
            lv.len() == batch@.len(),
            spec_render_lines(lv, 0) == s@ + spec_render_lines(lv, i as int),
        decreases batch.len() - i,
    {
        proof {
            assert(lv[i as int] == batch@[i as int].deep_view());
        }
        let ghost pre = s@;
        s.append(batch[i].as_str());
        s.append("\n");
        proof {
            assert(pre + (lv[i as int] + "\n"@ + spec_render_lines(lv, i as int + 1)) =~= (pre
                + lv[i as int] + "\n"@) + spec_render_lines(lv, i as int + 1));
        }
        i = i + 1;
    }
    s.append("\n");
    proof {
        assert(s@ =~= spec_render_lines(lv, 0) + "\n"@);
    }
    s
}

} // verus!
