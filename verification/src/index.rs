//! The offset index: a mapping from byte offset to the field entries
//! declared at that offset, in encounter order, built in one pass over a
//! normalized field sequence, and the pure lookup over it.
//!
//! `entries_at` is the abstract content of one bucket: the entries of all
//! normalized fields carrying that offset, in input order. `build_index` is
//! proved to realize `entries_at` for every offset, with one bucket per
//! distinct offset; `lookup` is proved to return exactly the bucket.

use vstd::prelude::*;

use crate::parse::parse_text;
use crate::parse::parse_text_model;
use crate::parse::ClassDecl;
use crate::parse::ClassModel;
use crate::parse::FieldModel;
use crate::parse::ParseError;

verus! {

// ---------------------------------------------------------------------------
// Normalized fields and query-facing entries.
// ---------------------------------------------------------------------------

/// One field in normalized form, the shape every input format reduces to:
/// its owning scope (absent for the text-dump form) and class, its name,
/// its byte offset, and its type text when one is known.
#[derive(Debug, PartialEq, Eq)]
pub struct NormField {
    pub scope_name: Option<Vec<u8>>,
    pub class_name: Vec<u8>,
    pub name: Vec<u8>,
    pub offset: usize,
    pub ty: Option<Vec<u8>>,
}

/// Abstract normalized field.
#[verifier::ext_equal]
pub struct NormFieldModel {
    pub scope_name: Option<Seq<u8>>,
    pub class_name: Seq<u8>,
    pub name: Seq<u8>,
    pub offset: nat,
    pub ty: Option<Seq<u8>>,
}

impl View for NormField {
    type V = NormFieldModel;

    open spec fn view(&self) -> NormFieldModel {
        NormFieldModel {
            scope_name: self.scope_name.deep_view(),
            class_name: self.class_name@,
            name: self.name@,
            offset: self.offset as nat,
            ty: self.ty.deep_view(),
        }
    }
}

impl DeepView for NormField {
    type V = NormFieldModel;

    open spec fn deep_view(&self) -> NormFieldModel {
        self.view()
    }
}

/// The query-facing projection of a field: what one result line shows.
#[derive(Debug, PartialEq, Eq)]
pub struct FieldEntry {
    pub name: Vec<u8>,
    pub ty: Option<Vec<u8>>,
    pub class_name: Vec<u8>,
    pub scope_name: Option<Vec<u8>>,
}

/// Abstract field entry.
#[verifier::ext_equal]
pub struct EntryModel {
    pub name: Seq<u8>,
    pub ty: Option<Seq<u8>>,
    pub class_name: Seq<u8>,
    pub scope_name: Option<Seq<u8>>,
}

impl View for FieldEntry {
    type V = EntryModel;

    open spec fn view(&self) -> EntryModel {
        EntryModel {
            name: self.name@,
            ty: self.ty.deep_view(),
            class_name: self.class_name@,
            scope_name: self.scope_name.deep_view(),
        }
    }
}

impl DeepView for FieldEntry {
    type V = EntryModel;

    open spec fn deep_view(&self) -> EntryModel {
        self.view()
    }
}

/// The entry a normalized field projects to.
pub open spec fn entry_of(f: NormFieldModel) -> EntryModel {
    EntryModel { name: f.name, ty: f.ty, class_name: f.class_name, scope_name: f.scope_name }
}

/// The entries of all fields at offset `off`, in input order.
pub open spec fn entries_at(fields: Seq<NormFieldModel>, off: nat) -> Seq<EntryModel>
    decreases fields.len(),
{
    if fields.len() == 0 {
        seq![]
    } else {
        let rest = entries_at(fields.drop_last(), off);
        if fields.last().offset == off {
            rest.push(entry_of(fields.last()))
        } else {
            rest
        }
    }
}

/// The distinct offsets of `fields`, in first-encounter order.
pub open spec fn distinct_offsets(fields: Seq<NormFieldModel>) -> Seq<nat>
    decreases fields.len(),
{
    if fields.len() == 0 {
        seq![]
    } else {
        let rest = distinct_offsets(fields.drop_last());
        if rest.contains(fields.last().offset) {
            rest
        } else {
            rest.push(fields.last().offset)
        }
    }
}

// ---------------------------------------------------------------------------
// The index.
// ---------------------------------------------------------------------------

/// One bucket: an offset and the entries declared at it.
#[derive(Debug, PartialEq, Eq)]
pub struct Bucket {
    pub offset: usize,
    pub entries: Vec<FieldEntry>,
}

/// Abstract bucket.
#[verifier::ext_equal]
pub struct BucketModel {
    pub offset: nat,
    pub entries: Seq<EntryModel>,
}

impl View for Bucket {
    type V = BucketModel;

    open spec fn view(&self) -> BucketModel {
        BucketModel { offset: self.offset as nat, entries: self.entries.deep_view() }
    }
}

impl DeepView for Bucket {
    type V = BucketModel;

    open spec fn deep_view(&self) -> BucketModel {
        self.view()
    }
}

/// The entries of the bucket for `off` in a bucket sequence, or empty.
pub open spec fn entries_for(bs: Seq<BucketModel>, off: nat) -> Seq<EntryModel>
    decreases bs.len(),
{
    if bs.len() == 0 {
        seq![]
    } else if bs[0].offset == off {
        bs[0].entries
    } else {
        entries_for(bs.drop_first(), off)
    }
}

/// Offset → ordered entries. Built once; read-only afterwards.
#[derive(Debug, PartialEq, Eq)]
pub struct OffsetIndex {
    pub buckets: Vec<Bucket>,
}

impl OffsetIndex {
    /// Well-formed: bucket offsets are pairwise distinct and no bucket is
    /// empty.
    pub open spec fn wf(self) -> bool {
        let bs = self.buckets.deep_view();
        &&& forall|i: int, j: int|
            0 <= i < j < bs.len() ==> #[trigger] bs[i].offset != #[trigger] bs[j].offset
        &&& forall|i: int| 0 <= i < bs.len() ==> (#[trigger] bs[i].entries).len() > 0
    }

    /// The entries recorded for `off`, empty when no bucket exists.
    pub open spec fn spec_lookup(self, off: nat) -> Seq<EntryModel> {
        entries_for(self.buckets.deep_view(), off)
    }

    /// The entries at `off`, or `None` when no field was declared there.
    ///
    /// Pure and total: absence is an empty answer, never an error.
    pub fn lookup(&self, offset: usize) -> (r: Option<&Vec<FieldEntry>>)
        requires
            self.wf(),
        ensures
            match r {
                Some(es) => es.deep_view() == self.spec_lookup(offset as nat) && es@.len() > 0,
                None => self.spec_lookup(offset as nat) == Seq::<EntryModel>::empty(),
            },
    {
        let n = self.buckets.len();
        let mut k: usize = 0;
        while k < n
            invariant
                self.wf(),
                0 <= k <= n == self.buckets@.len(),
                forall|t: int|
                    0 <= t < k ==> (#[trigger] self.buckets.deep_view()[t]).offset != offset as nat,
        decreases n - k,
        {
            if self.buckets[k].offset == offset {
                proof {
                    lemma_entries_for_found(self.buckets.deep_view(), k as int, offset as nat);
                    let bs = self.buckets.deep_view();
                    assert(bs.len() == self.buckets@.len());
                    assert(0 <= (k as int) && (k as int) < bs.len());
                    assert((bs[k as int].entries).len() > 0);
                    assert(self.buckets@[k as int].entries.deep_view() == bs[k as int].entries);
                }
                return Some(&self.buckets[k].entries);
            }
            k = k + 1;
        }
        proof {
            lemma_entries_for_missing(self.buckets.deep_view(), offset as nat);
        }
        None
    }
}

// ---------------------------------------------------------------------------
// Bucket-sequence lemmas.
// ---------------------------------------------------------------------------

proof fn lemma_entries_for_found(bs: Seq<BucketModel>, k: int, off: nat)
    requires
        0 <= k < bs.len(),
        bs[k].offset == off,
        forall|i: int| 0 <= i < k ==> (#[trigger] bs[i]).offset != off,
    ensures
        entries_for(bs, off) == bs[k].entries,
    decreases k,
{
    if k > 0 {
        lemma_entries_for_found(bs.drop_first(), k - 1, off);
    }
}

proof fn lemma_entries_for_missing(bs: Seq<BucketModel>, off: nat)
    requires
        forall|i: int| 0 <= i < bs.len() ==> (#[trigger] bs[i]).offset != off,
    ensures
        entries_for(bs, off) == Seq::<EntryModel>::empty(),
    decreases bs.len(),
{
    if bs.len() > 0 {
        lemma_entries_for_missing(bs.drop_first(), off);
    }
}

proof fn lemma_entries_for_update(bs: Seq<BucketModel>, k: int, b: BucketModel, off: nat)
    requires
        0 <= k < bs.len(),
        b.offset == bs[k].offset,
        forall|i: int| 0 <= i < bs.len() && i != k ==> (#[trigger] bs[i]).offset != bs[k].offset,
    ensures
        entries_for(bs.update(k, b), off) == if off == b.offset {
            b.entries
        } else {
            entries_for(bs, off)
        },
    decreases k,
{
    let bs2 = bs.update(k, b);
    if k == 0 {
        assert(bs2.drop_first() =~= bs.drop_first());
    } else {
        assert(bs2[0] == bs[0]);
        assert(bs2.drop_first() =~= bs.drop_first().update(k - 1, b));
        lemma_entries_for_update(bs.drop_first(), k - 1, b, off);
    }
}

proof fn lemma_entries_for_push(bs: Seq<BucketModel>, b: BucketModel, off: nat)
    requires
        forall|i: int| 0 <= i < bs.len() ==> (#[trigger] bs[i]).offset != b.offset,
    ensures
        entries_for(bs.push(b), off) == if off == b.offset {
            b.entries
        } else {
            entries_for(bs, off)
        },
    decreases bs.len(),
{
    let bs2 = bs.push(b);
    if bs.len() == 0 {
        assert(bs2[0] == b);
        assert(entries_for(bs, off) == Seq::<EntryModel>::empty());
        if off != b.offset {
            assert(bs2.drop_first() =~= Seq::<BucketModel>::empty());
            assert(entries_for(bs2.drop_first(), off) == Seq::<EntryModel>::empty());
            assert(entries_for(bs2, off) == entries_for(bs2.drop_first(), off));
        } else {
            assert(entries_for(bs2, off) == b.entries);
        }
    } else {
        assert(bs2[0] == bs[0]);
        assert(bs2.drop_first() =~= bs.drop_first().push(b));
        assert forall|i: int| 0 <= i < bs.drop_first().len() implies (#[trigger] bs.drop_first()[i]).offset
            != b.offset by {
            assert(bs.drop_first()[i] == bs[i + 1]);
        }
        lemma_entries_for_push(bs.drop_first(), b, off);
    }
}

// ---------------------------------------------------------------------------
// Building.
// ---------------------------------------------------------------------------

fn copy_bytes(s: &[u8]) -> (r: Vec<u8>)
    ensures
        r@ == s@,
{
    vstd::slice::slice_to_vec(s)
}

fn copy_opt_bytes(o: &Option<Vec<u8>>) -> (r: Option<Vec<u8>>)
    ensures
        r.deep_view() == o.deep_view(),
{
    match o {
        Some(v) => Some(copy_bytes(v.as_slice())),
        None => None,
    }
}

/// The entry projected from one normalized field.
fn make_entry(f: &NormField) -> (e: FieldEntry)
    ensures
        e@ == entry_of(f@),
{
    FieldEntry {
        name: copy_bytes(f.name.as_slice()),
        ty: copy_opt_bytes(&f.ty),
        class_name: copy_bytes(f.class_name.as_slice()),
        scope_name: copy_opt_bytes(&f.scope_name),
    }
}

fn find_bucket_index(buckets: &Vec<Bucket>, offset: usize) -> (r: Option<usize>)
    ensures
        match r {
            Some(k) => k < buckets@.len() && buckets.deep_view()[k as int].offset == offset as nat,
            None => forall|t: int|
                0 <= t < buckets@.len() ==> (#[trigger] buckets.deep_view()[t]).offset
                    != offset as nat,
        },
{
    let n = buckets.len();
    let mut k: usize = 0;
    while k < n
        invariant
            0 <= k <= n == buckets@.len(),
            forall|t: int|
                0 <= t < k ==> (#[trigger] buckets.deep_view()[t]).offset != offset as nat,
        decreases n - k,
    {
        if buckets[k].offset == offset {
            return Some(k);
        }
        k = k + 1;
    }
    None
}

/// Build the index in one pass: each field's entry is appended to the bucket
/// of its offset, the bucket being created on first use. Nothing is ever
/// deduplicated, merged or reordered.
pub fn build_index(fields: &Vec<NormField>) -> (r: OffsetIndex)
    ensures
        r.wf(),
        forall|off: nat| #[trigger]
            r.spec_lookup(off) == entries_at(fields.deep_view(), off),
        r.buckets.deep_view().map_values(|b: BucketModel| b.offset) == distinct_offsets(
            fields.deep_view(),
        ),
{
    let ghost fm = fields.deep_view();
    let n = fields.len();
    let mut buckets: Vec<Bucket> = Vec::new();
    let mut i: usize = 0;
    proof {
        assert(buckets.deep_view() =~= Seq::<BucketModel>::empty());
        assert(fm.take(0) =~= Seq::<NormFieldModel>::empty());
        assert(buckets.deep_view().map_values(|b: BucketModel| b.offset) =~= distinct_offsets(
            fm.take(0),
        ));
    }
    while i < n
        invariant
            0 <= i <= n == fields@.len(),
            fm == fields.deep_view(),
            forall|p: int, q: int|
                0 <= p < q < buckets.deep_view().len() ==> (#[trigger] buckets.deep_view()[p]).offset
                    != (#[trigger] buckets.deep_view()[q]).offset,
            forall|p: int|
                0 <= p < buckets.deep_view().len() ==> (#[trigger] buckets.deep_view()[p]).entries.len()
                    > 0,
            forall|off: nat| #[trigger]
                entries_for(buckets.deep_view(), off) == entries_at(fm.take(i as int), off),
            buckets.deep_view().map_values(|b: BucketModel| b.offset) == distinct_offsets(
                fm.take(i as int),
            ),
        decreases n - i,
    {
        let f = &fields[i];
        let e = make_entry(f);
        let ghost pre = fm.take(i as int);
        let ghost post = fm.take(i + 1);
        let ghost bs_old = buckets.deep_view();
        proof {
            assert(post.drop_last() =~= pre);
            assert(post.last() == fm[i as int]);
            assert(fm[i as int] == f@);
        }
        match find_bucket_index(&buckets, f.offset) {
            Some(k) => {
                let mut b = buckets.remove(k);
                let ghost b_old = b@;
                b.entries.push(e);
                proof {
                    assert(b@.entries =~= b_old.entries.push(e@));
                }
                buckets.insert(k, b);
                proof {
                    assert(bs_old[k as int] == b_old);
                    assert(buckets.deep_view() =~= bs_old.update(k as int, b@));
                    assert forall|off: nat| #[trigger]
                        entries_for(buckets.deep_view(), off) == entries_at(post, off) by {
                        lemma_entries_for_update(bs_old, k as int, b@, off);
                        lemma_entries_for_found(bs_old, k as int, f@.offset);
                    }
                    assert(buckets.deep_view().map_values(|bm: BucketModel| bm.offset)
                        =~= bs_old.map_values(|bm: BucketModel| bm.offset));
                    assert(distinct_offsets(pre).contains(f@.offset)) by {
                        assert(bs_old.map_values(|bm: BucketModel| bm.offset)[k as int]
                            == f@.offset);
                    }
                    assert(distinct_offsets(post) == distinct_offsets(pre));
                }
            },
            None => {
                let mut es: Vec<FieldEntry> = Vec::new();
                es.push(e);
                let nb = Bucket { offset: f.offset, entries: es };
                proof {
                    assert(nb@.entries =~= seq![e@]);
                }
                buckets.push(nb);
                proof {
                    assert(buckets.deep_view() =~= bs_old.push(nb@));
                    assert forall|off: nat| #[trigger]
                        entries_for(buckets.deep_view(), off) == entries_at(post, off) by {
                        lemma_entries_for_push(bs_old, nb@, off);
                        if off == f@.offset {
                            lemma_entries_for_missing(bs_old, off);
                            assert(entries_at(pre, off) =~= Seq::<EntryModel>::empty());
                            assert(entries_at(post, off) =~= seq![e@]);
                        }
                    }
                    assert(!distinct_offsets(pre).contains(f@.offset)) by {
                        if distinct_offsets(pre).contains(f@.offset) {
                            let t = choose|t: int|
                                0 <= t < distinct_offsets(pre).len() && distinct_offsets(pre)[t]
                                    == f@.offset;
                            assert(bs_old.map_values(|bm: BucketModel| bm.offset)[t]
                                == f@.offset);
                        }
                    }
                    assert(buckets.deep_view().map_values(|bm: BucketModel| bm.offset)
                        =~= distinct_offsets(pre).push(f@.offset));
                }
            },
        }
        i = i + 1;
    }
    proof {
        assert(fm.take(n as int) =~= fm);
    }
    OffsetIndex { buckets }
}

// ---------------------------------------------------------------------------
// Laws of the index.
// ---------------------------------------------------------------------------

proof fn lemma_entries_at_absent(fields: Seq<NormFieldModel>, off: nat)
    requires
        forall|i: int| 0 <= i < fields.len() ==> (#[trigger] fields[i]).offset != off,
    ensures
        entries_at(fields, off) == Seq::<EntryModel>::empty(),
    decreases fields.len(),
{
    if fields.len() > 0 {
        let p = fields.drop_last();
        assert forall|i: int| 0 <= i < p.len() implies (#[trigger] p[i]).offset != off by {
            assert(p[i] == fields[i]);
        }
        lemma_entries_at_absent(p, off);
        assert(fields.last() == fields[fields.len() - 1]);
    }
}

proof fn lemma_distinct_offsets_contains(fields: Seq<NormFieldModel>, off: nat)
    ensures
        distinct_offsets(fields).contains(off) <==> exists|i: int|
            0 <= i < fields.len() && (#[trigger] fields[i]).offset == off,
    decreases fields.len(),
{
    if fields.len() == 0 {
        assert(!distinct_offsets(fields).contains(off));
    } else {
        let p = fields.drop_last();
        let f = fields.last();
        lemma_distinct_offsets_contains(p, off);
        if f.offset == off {
            assert(fields[fields.len() - 1].offset == off);
            assert(distinct_offsets(fields).contains(off)) by {
                let d = distinct_offsets(p);
                if d.contains(off) {
                    let t = choose|t: int| 0 <= t < d.len() && d[t] == off;
                    assert(distinct_offsets(fields)[t] == off);
                } else {
                    assert(distinct_offsets(fields) == d.push(off));
                    assert(distinct_offsets(fields)[d.len() as int] == off);
                }
            }
        } else {
            if distinct_offsets(fields).contains(off) {
                assert(distinct_offsets(p).contains(off)) by {
                    let d = distinct_offsets(p);
                    let t = choose|t: int|
                        0 <= t < distinct_offsets(fields).len() && distinct_offsets(fields)[t]
                            == off;
                    if d.contains(f.offset) {
                        assert(distinct_offsets(fields) == d);
                    } else {
                        assert(distinct_offsets(fields) == d.push(f.offset));
                        assert(t < d.len());
                        assert(d[t] == off);
                    }
                }
                let i = choose|i: int| 0 <= i < p.len() && (#[trigger] p[i]).offset == off;
                assert(fields[i].offset == off);
            }
            if exists|i: int| 0 <= i < fields.len() && (#[trigger] fields[i]).offset == off {
                let i = choose|i: int| 0 <= i < fields.len() && (#[trigger] fields[i]).offset
                    == off;
                assert(i < p.len());
                assert(p[i].offset == off);
                assert(distinct_offsets(p).contains(off));
                let d = distinct_offsets(p);
                let t = choose|t: int| 0 <= t < d.len() && d[t] == off;
                if d.contains(f.offset) {
                    assert(distinct_offsets(fields)[t] == off);
                } else {
                    assert(distinct_offsets(fields) == d.push(f.offset));
                    assert(distinct_offsets(fields)[t] == off);
                }
                assert(distinct_offsets(fields).contains(off));
            }
        }
    }
}

/// LAW. Fields at pairwise-distinct offsets index independently: each
/// field's offset has exactly that field's entry as its whole bucket, and
/// there are as many distinct offsets — hence, by `build_index`'s contract,
/// as many buckets — as fields.
pub proof fn lemma_distinct_offsets_singleton_buckets(fields: Seq<NormFieldModel>)
    requires
        forall|i: int, j: int|
            0 <= i < j < fields.len() ==> (#[trigger] fields[i]).offset != (
            #[trigger] fields[j]).offset,
    ensures
        forall|i: int|
            0 <= i < fields.len() ==> entries_at(fields, (#[trigger] fields[i]).offset) == seq![
                entry_of(fields[i]),
            ],
        distinct_offsets(fields).len() == fields.len(),
    decreases fields.len(),
{
    if fields.len() > 0 {
        let p = fields.drop_last();
        let f = fields.last();
        assert forall|i: int, j: int| 0 <= i < j < p.len() implies (#[trigger] p[i]).offset != (
        #[trigger] p[j]).offset by {
            assert(p[i] == fields[i]);
            assert(p[j] == fields[j]);
        }
        lemma_distinct_offsets_singleton_buckets(p);
        assert forall|i: int| 0 <= i < p.len() implies (#[trigger] p[i]).offset != f.offset by {
            assert(p[i] == fields[i]);
            assert(f == fields[fields.len() - 1]);
        }
        lemma_entries_at_absent(p, f.offset);
        assert(entries_at(fields, f.offset) =~= seq![entry_of(f)]);
        lemma_distinct_offsets_contains(p, f.offset);
        assert(!distinct_offsets(p).contains(f.offset));
        assert(distinct_offsets(fields).len() == fields.len());
        assert forall|i: int|
            0 <= i < fields.len() implies entries_at(fields, (#[trigger] fields[i]).offset)
            == seq![entry_of(fields[i])] by {
            if i < fields.len() - 1 {
                assert(p[i] == fields[i]);
                assert(fields[i].offset != f.offset);
                assert(entries_at(fields, fields[i].offset) == entries_at(p, fields[i].offset));
            } else {
                assert(fields[i] == f);
            }
        }
    }
}

proof fn lemma_entries_at_take_step(fields: Seq<NormFieldModel>, off: nat, m: int)
    requires
        0 <= m < fields.len(),
    ensures
        entries_at(fields.take(m + 1), off) == if fields[m].offset == off {
            entries_at(fields.take(m), off).push(entry_of(fields[m]))
        } else {
            entries_at(fields.take(m), off)
        },
{
    assert(fields.take(m + 1).drop_last() =~= fields.take(m));
    assert(fields.take(m + 1).last() == fields[m]);
}

proof fn lemma_entries_at_take_prefix(fields: Seq<NormFieldModel>, off: nat, m1: int, m2: int)
    requires
        0 <= m1 <= m2 <= fields.len(),
    ensures
        entries_at(fields.take(m1), off).len() <= entries_at(fields.take(m2), off).len(),
        forall|k: int|
            0 <= k < entries_at(fields.take(m1), off).len() ==> #[trigger] entries_at(
                fields.take(m2),
                off,
            )[k] == entries_at(fields.take(m1), off)[k],
    decreases m2 - m1,
{
    if m1 < m2 {
        lemma_entries_at_take_prefix(fields, off, m1, m2 - 1);
        lemma_entries_at_take_step(fields, off, m2 - 1);
    }
}

/// LAW. Two fields declared at one offset — bitfield siblings, or two
/// unrelated classes sharing an offset number — both reach the shared
/// bucket, in the order they were encountered in the input.
pub proof fn lemma_shared_offset_keeps_order(fields: Seq<NormFieldModel>, i: int, j: int)
    requires
        0 <= i < j < fields.len(),
        fields[i].offset == fields[j].offset,
    ensures
        ({
            let b = entries_at(fields, fields[i].offset);
            exists|k: int, l: int|
                0 <= k < l < b.len() && b[k] == entry_of(fields[i]) && b[l] == entry_of(
                    fields[j],
                )
        }),
{
    let off = fields[i].offset;
    let n = fields.len() as int;
    let b = entries_at(fields, off);
    assert(fields.take(n) =~= fields);
    lemma_entries_at_take_step(fields, off, i);
    lemma_entries_at_take_step(fields, off, j);
    let k = entries_at(fields.take(i + 1), off).len() - 1;
    let l = entries_at(fields.take(j + 1), off).len() - 1;
    assert(entries_at(fields.take(i + 1), off)[k] == entry_of(fields[i]));
    assert(entries_at(fields.take(j + 1), off)[l] == entry_of(fields[j]));
    lemma_entries_at_take_prefix(fields, off, i + 1, j);
    lemma_entries_at_take_prefix(fields, off, j, j + 1);
    lemma_entries_at_take_prefix(fields, off, i + 1, n);
    lemma_entries_at_take_prefix(fields, off, j + 1, n);
    assert(k < l);
    assert(b[k] == entry_of(fields[i]));
    assert(b[l] == entry_of(fields[j]));
    assert(0 <= k < l < b.len() && b[k] == entry_of(fields[i]) && b[l] == entry_of(fields[j]));
}

/// LAW, stated on the index itself. An index built (as `build_index`
/// guarantees) from N fields at pairwise-distinct offsets has exactly N
/// buckets, and looking up any field's offset answers exactly that field's
/// entry.
pub proof fn lemma_index_of_distinct_offsets(ix: OffsetIndex, fields: Seq<NormFieldModel>)
    requires
        forall|off: nat| #[trigger] ix.spec_lookup(off) == entries_at(fields, off),
        ix.buckets.deep_view().map_values(|b: BucketModel| b.offset) == distinct_offsets(fields),
        forall|i: int, j: int|
            0 <= i < j < fields.len() ==> (#[trigger] fields[i]).offset != (
            #[trigger] fields[j]).offset,
    ensures
        ix.buckets.deep_view().len() == fields.len(),
        forall|i: int|
            0 <= i < fields.len() ==> ix.spec_lookup((#[trigger] fields[i]).offset) == seq![
                entry_of(fields[i]),
            ],
{
    lemma_distinct_offsets_singleton_buckets(fields);
    assert(ix.buckets.deep_view().map_values(|b: BucketModel| b.offset).len()
        == ix.buckets.deep_view().len());
}

/// LAW, stated on the index itself. When two fields share one offset, the
/// lookup for that offset holds both their entries, the earlier field's
/// entry first.
pub proof fn lemma_index_of_shared_offset(
    ix: OffsetIndex,
    fields: Seq<NormFieldModel>,
    i: int,
    j: int,
)
    requires
        forall|off: nat| #[trigger] ix.spec_lookup(off) == entries_at(fields, off),
        0 <= i < j < fields.len(),
        fields[i].offset == fields[j].offset,
    ensures
        ({
            let b = ix.spec_lookup(fields[i].offset);
            exists|k: int, l: int|
                0 <= k < l < b.len() && b[k] == entry_of(fields[i]) && b[l] == entry_of(
                    fields[j],
                )
        }),
{
    lemma_shared_offset_keeps_order(fields, i, j);
    let off = fields[i].offset;
    let ea = entries_at(fields, off);
    assert(ix.spec_lookup(off) == ea);
    let (k, l) = choose|k: int, l: int|
        0 <= k < l < ea.len() && ea[k] == entry_of(fields[i]) && ea[l] == entry_of(fields[j]);
    let b = ix.spec_lookup(off);
    assert(0 <= k < l < b.len() && b[k] == entry_of(fields[i]) && b[l] == entry_of(fields[j]));
}

// ---------------------------------------------------------------------------
// Normalizing parsed classes.
// ---------------------------------------------------------------------------

/// The normalized fields of one class, in declaration order. The text-dump
/// form has no type scopes and every field's type text is known.
pub open spec fn norm_of_class(c: ClassModel) -> Seq<NormFieldModel> {
    c.fields.map_values(
        |f: FieldModel| NormFieldModel {
            scope_name: None,
            class_name: c.name,
            name: f.name,
            offset: f.offset,
            ty: Some(f.ty),
        },
    )
}

/// The normalized fields of a class sequence, classes in order.
pub open spec fn norm_of_classes(cs: Seq<ClassModel>) -> Seq<NormFieldModel>
    decreases cs.len(),
{
    if cs.len() == 0 {
        seq![]
    } else {
        norm_of_classes(cs.drop_last()) + norm_of_class(cs.last())
    }
}

/// Flatten parsed classes into the normalized field sequence, keeping
/// declaration order within each class and class order across classes.
pub fn normalize(classes: &Vec<ClassDecl>) -> (r: Vec<NormField>)
    ensures
        r.deep_view() == norm_of_classes(classes.deep_view()),
{
    let ghost cm = classes.deep_view();
    let n = classes.len();
    let mut out: Vec<NormField> = Vec::new();
    let mut i: usize = 0;
    proof {
        assert(out.deep_view() =~= Seq::<NormFieldModel>::empty());
        assert(cm.take(0) =~= Seq::<ClassModel>::empty());
        assert(out.deep_view() =~= norm_of_classes(cm.take(0)));
    }
    while i < n
        invariant
            0 <= i <= n == classes@.len(),
            cm == classes.deep_view(),
            out.deep_view() == norm_of_classes(cm.take(i as int)),
        decreases n - i,
    {
        let c = &classes[i];
        let nf = c.fields.len();
        let mut j: usize = 0;
        proof {
            assert(cm[i as int] == c@);
            assert(norm_of_class(c@).take(0) =~= Seq::<NormFieldModel>::empty());
            assert(out.deep_view() + norm_of_class(c@).take(0) =~= out.deep_view());
        }
        let ghost out_start = out.deep_view();
        while j < nf
            invariant
                0 <= j <= nf == c.fields@.len(),
                cm == classes.deep_view(),
                0 <= i < cm.len(),
                cm[i as int] == c@,
                out_start == norm_of_classes(cm.take(i as int)),
                out.deep_view() == out_start + norm_of_class(c@).take(j as int),
            decreases nf - j,
        {
            let fld = &c.fields[j];
            let nf2 = NormField {
                scope_name: None,
                class_name: copy_bytes(c.name.as_slice()),
                name: copy_bytes(fld.name.as_slice()),
                offset: fld.offset,
                ty: Some(copy_bytes(fld.ty.as_slice())),
            };
            let ghost out_before = out.deep_view();
            proof {
                assert(c@.fields[j as int] == fld@);
                assert(norm_of_class(c@)[j as int] =~= nf2@);
            }
            out.push(nf2);
            proof {
                assert(out.deep_view() =~= out_before.push(nf2@));
                assert(norm_of_class(c@).take(j + 1) =~= norm_of_class(c@).take(j as int).push(
                    norm_of_class(c@)[j as int],
                ));
                assert(out.deep_view() =~= out_start + norm_of_class(c@).take(j + 1));
            }
            j = j + 1;
        }
        proof {
            assert(norm_of_class(c@).take(nf as int) =~= norm_of_class(c@));
            assert(cm.take(i + 1).drop_last() =~= cm.take(i as int));
            assert(cm.take(i + 1).last() == c@);
            assert(out.deep_view() =~= norm_of_classes(cm.take(i + 1)));
        }
        i = i + 1;
    }
    proof {
        assert(cm.take(n as int) =~= cm);
    }
    out
}

/// Parse a pseudo-header text and index its fields: the all-or-nothing
/// startup path for the text-dump input form. Either the whole text parses
/// and every offset's bucket is exactly the entries of the parsed classes'
/// fields at that offset, or the first grammar error is returned and no
/// index exists.
pub fn index_of_text(s: &[u8]) -> (r: Result<OffsetIndex, ParseError>)
    ensures
        match r {
            Ok(ix) => parse_text_model(s@) is Ok && ix.wf() && forall|off: nat| #[trigger]
                ix.spec_lookup(off) == entries_at(
                    norm_of_classes(parse_text_model(s@)->Ok_0),
                    off,
                ),
            Err(e) => parse_text_model(s@) == Err::<Seq<ClassModel>, crate::parse::ErrorModel>(
                e@,
            ),
        },
{
    match parse_text(s) {
        Err(e) => Err(e),
        Ok(classes) => {
            let fields = normalize(&classes);
            Ok(build_index(&fields))
        },
    }
}

} // verus!
