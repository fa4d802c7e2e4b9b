use vstd::prelude::*;

use crate::com::ComdeError;
use crate::literal::{lemma_literal_ascii, literal_of, render_literal};
use crate::stream::ByteWriter;
use crate::{Compress, Compressor};
use vstd::utf8::encode_utf8;

verus! {

/// The perfect-hash map builder of the outside generator, declared so that
/// values of it can be carried through verified code.
#[verifier::external_type_specification]
#[verifier::external_body]
#[verifier::reject_recursive_types(K)]
pub struct ExPhfCodegenMap<'a, K>(phf_codegen::Map<'a, K>);

/// The characters that a sequence of ASCII bytes spells.
pub open spec fn ascii_chars_of(bytes: Seq<u8>) -> Seq<char> {
    Seq::new(bytes.len(), |i: int| bytes[i] as char)
}

/// What the outside builder holds: its key texts and value texts, in
/// insertion order.
pub uninterp spec fn phf_entries(m: phf_codegen::Map<'static, String>) -> Seq<
    (Seq<char>, Seq<char>),
>;

/// The path recorded in the outside builder for referencing the map type in
/// generated code.
pub uninterp spec fn phf_path_of(m: phf_codegen::Map<'static, String>) -> Seq<char>;

/// The source text that the outside builder generates for given entries and
/// path. The generator seeds its hashing with a fixed constant, so the text
/// is a function of these arguments alone.
pub uninterp spec fn phf_source(entries: Seq<(Seq<char>, Seq<char>)>, path: Seq<char>) -> Seq<
    char,
>;

/// Relies on phf_codegen::Map::new: the builder starts with no entries and
/// with the default path text.
#[verifier::external_body]
fn phf_map_new() -> (r: phf_codegen::Map<'static, String>)
    ensures
        phf_entries(r) == Seq::<(Seq<char>, Seq<char>)>::empty(),
        phf_path_of(r) == "::phf"@,
{
    phf_codegen::Map::new()
}

/// Relies on phf_codegen::Map::entry: it appends one key and one value text
/// at the end of the builder's entries, touching nothing else.
#[verifier::external_body]
fn phf_map_entry(m: &mut phf_codegen::Map<'static, String>, key: String, value: &[u8])
    requires
        forall|i: int| 0 <= i < value@.len() ==> value@[i] < 0x80,
    ensures
        phf_entries(*final(m)) == phf_entries(*old(m)).push((key@, ascii_chars_of(value@))),
        phf_path_of(*final(m)) == phf_path_of(*old(m)),
{
    let text = String::from_utf8(value.to_vec()).unwrap();
    m.entry(key, text);
}

/// Relies on phf_codegen::Map::phf_path: it records the path and touches
/// nothing else.
#[verifier::external_body]
fn phf_map_set_path(m: &mut phf_codegen::Map<'static, String>, path: &str)
    ensures
        phf_entries(*final(m)) == phf_entries(*old(m)),
        phf_path_of(*final(m)) == path@,
{
    m.phf_path(path.to_string());
}

/// Relies on phf_codegen::Map::build and the Display rendering of its
/// result: with all keys distinct it panics on nothing, and the text it
/// renders is a function of the entries and the path alone.
#[verifier::external_body]
fn phf_map_build(m: &phf_codegen::Map<'static, String>) -> (r: String)
    requires
        forall|i: int, j: int|
            0 <= i < j < phf_entries(*m).len() ==> phf_entries(*m)[i].0 != phf_entries(*m)[j].0,
    ensures
        r@ == phf_source(phf_entries(*m), phf_path_of(*m)),
{
    format!("{}", m.build())
}

/// One accumulated entry: the key, the compressed bytes stored for it, and,
/// in ghost form, the serialized value bytes they decode to.
struct MapEntry {
    key: String,
    blob: Vec<u8>,
    original: Ghost<Seq<u8>>,
}

/// Replaces the entry under `k` or appends a new one: the last insertion for
/// a key wins.
pub open spec fn upsert(
    m: Seq<(Seq<char>, Seq<u8>, Seq<u8>)>,
    k: Seq<char>,
    blob: Seq<u8>,
    orig: Seq<u8>,
) -> Seq<(Seq<char>, Seq<u8>, Seq<u8>)> {
    if exists|i: int| 0 <= i < m.len() && #[trigger] m[i].0 == k {
        m.update(choose|i: int| 0 <= i < m.len() && #[trigger] m[i].0 == k, (k, blob, orig))
    } else {
        m.push((k, blob, orig))
    }
}

/// The entries as the generator will see them: each key beside the literal
/// text rendered from its compressed bytes.
pub open spec fn rendered_entries(m: Seq<(Seq<char>, Seq<u8>, Seq<u8>)>) -> Seq<
    (Seq<char>, Seq<char>),
> {
    m.map_values(|t: (Seq<char>, Seq<u8>, Seq<u8>)| (t.0, ascii_chars_of(literal_of(t.1))))
}

/// The path used when none was recorded.
pub open spec fn path_or_default(p: Option<Seq<char>>) -> Seq<char> {
    match p {
        Some(s) => s,
        None => "::phf"@,
    }
}

/// The exact bytes that building a map writes: the UTF-8 text of the
/// generated perfect-hash map source over the rendered entries.
pub open spec fn artifact_of(m: Seq<(Seq<char>, Seq<u8>, Seq<u8>)>, p: Option<Seq<char>>) -> Seq<
    u8,
> {
    encode_utf8(phf_source(rendered_entries(m), path_or_default(p)))
}

/// A builder for a static, read-only map whose values are pre-compressed
/// byte blobs. Every value is compressed before it is stored: the builder
/// never holds a raw value. Inserting under a key already present replaces
/// that entry (the last insertion wins), so the keys handed to the generator
/// are always unique. Building consumes the builder, so a built builder can
/// be neither mutated nor built again; for the same entries and path every
/// build writes the same artifact.
pub struct MapBuilder<V, C> {
    entries: Vec<MapEntry>,
    compressor: C,
    path: Option<String>,
    value_marker: core::marker::PhantomData<V>,
}

impl<V: Compress, C: Compressor> MapBuilder<V, C> {
    /// The accumulated entries: key, stored compressed bytes, and the
    /// serialized value bytes they stand for.
    pub closed spec fn model(&self) -> Seq<(Seq<char>, Seq<u8>, Seq<u8>)> {
        self.entries@.map_values(|e: MapEntry| (e.key@, e.blob@, e.original@))
    }

    /// The recorded path, if any.
    pub closed spec fn path_spec(&self) -> Option<Seq<char>> {
        match self.path {
            Some(p) => Some(p@),
            None => None,
        }
    }

    /// Keys are unique, and every stored blob decodes, under this builder's
    /// codec, to exactly the serialized bytes recorded beside it.
    pub open spec fn wf(&self) -> bool {
        &&& forall|i: int, j: int|
            0 <= i < j < self.model().len() ==> (#[trigger] self.model()[i]).0 != (
            #[trigger] self.model()[j]).0
        &&& forall|i: int|
            0 <= i < self.model().len() ==> C::decode_spec((#[trigger] self.model()[i]).1)
                == Some(self.model()[i].2)
    }

    pub open spec fn has_key(&self, k: Seq<char>) -> bool {
        exists|i: int| 0 <= i < self.model().len() && (#[trigger] self.model()[i]).0 == k
    }

    pub open spec fn index_of(&self, k: Seq<char>) -> int {
        choose|i: int| 0 <= i < self.model().len() && (#[trigger] self.model()[i]).0 == k
    }

    pub open spec fn blob_for(&self, k: Seq<char>) -> Seq<u8> {
        self.model()[self.index_of(k)].1
    }

    pub open spec fn original_for(&self, k: Seq<char>) -> Seq<u8> {
        self.model()[self.index_of(k)].2
    }

    /// An empty builder, bound to one key type, one value type and one
    /// compressor.
    pub fn new() -> (r: Self)
        ensures
            r.wf(),
            r.model() == Seq::<(Seq<char>, Seq<u8>, Seq<u8>)>::empty(),
            r.path_spec() is None,
    {
        let r = MapBuilder {
            entries: Vec::new(),
            compressor: C::new(),
            path: None,
            value_marker: core::marker::PhantomData,
        };
        proof {
            assert(r.model() =~= Seq::<(Seq<char>, Seq<u8>, Seq<u8>)>::empty());
        }
        r
    }

    /// How many entries the builder holds.
    pub fn len(&self) -> (r: usize)
        ensures
            r == self.model().len(),
    {
        self.entries.len()
    }

    /// Compresses `value` with the bound compressor and stores the result
    /// under `key`; inserting under a key already present replaces that
    /// entry, so the last insertion wins. Compressing an in-memory value
    /// cannot fail, so the builder always gains or replaces exactly one
    /// entry.
    pub fn entry(&mut self, key: &str, value: V)
        requires
            old(self).wf(),
        ensures
            final(self).wf(),
            final(self).path_spec() == old(self).path_spec(),
            final(self).model() == upsert(
                old(self).model(),
                key@,
                C::encode_spec(value.repr()),
                value.repr(),
            ),
    {
        let blob = self.compressor.compress_value(&value).unwrap();
        let ghost orig = value.repr();
        let ghost b = blob@;
        let key_owned: String = key.to_owned();
        let mut i: usize = 0;
        let mut idx_opt: Option<usize> = None;
        while i < self.entries.len()
            invariant
                i <= self.entries@.len(),
                key_owned@ == key@,
                match idx_opt {
                    Some(idx) => idx < i && self.entries@[idx as int].key@ == key@,
                    None => forall|j: int|
                        0 <= j < i ==> (#[trigger] self.entries@[j]).key@ != key@,
                },
            decreases self.entries@.len() - i,
        {
            let e = &self.entries[i];
            if e.key == key_owned {
                idx_opt = Some(i);
            }
            i = i + 1;
        }
        let ghost pre = self.model();
        let ghost pre_entries = self.entries@;
        let new_entry = MapEntry { key: key_owned, blob, original: Ghost(orig) };
        match idx_opt {
            Some(idx) => {
                self.entries.remove(idx);
                self.entries.insert(idx, new_entry);
                proof {
                    assert(self.entries@ =~= pre_entries.update(idx as int, new_entry));
                    assert(self.model() =~= pre.update(idx as int, (key@, b, orig)));
                    assert(pre[idx as int].0 == key@);
                    let chosen = choose|i0: int|
                        0 <= i0 < pre.len() && #[trigger] pre[i0].0 == key@;
                    if chosen != idx as int {
                        assert(pre[chosen].0 == key@);
                        assert(false);
                    }
                    assert(self.model() =~= upsert(pre, key@, b, orig));
                }
            },
            None => {
                self.entries.push(new_entry);
                proof {
                    assert forall|i0: int| 0 <= i0 < pre.len() implies (#[trigger] pre[i0]).0
                        != key@ by {
                        assert(pre[i0].0 == pre_entries[i0].key@);
                    }
                    assert(self.model() =~= pre.push((key@, b, orig)));
                    assert(self.model() =~= upsert(pre, key@, b, orig));
                }
            },
        }
    }

    /// The compressed bytes stored under `key`, if the key is present.
    pub fn get(&self, key: &str) -> (r: Option<Vec<u8>>)
        requires
            self.wf(),
        ensures
            match r {
                Some(b) => self.has_key(key@) && b@ == self.blob_for(key@),
                None => !self.has_key(key@),
            },
    {
        let key_owned: String = key.to_owned();
        let mut i: usize = 0;
        while i < self.entries.len()
            invariant
                self.wf(),
                key_owned@ == key@,
                i <= self.entries@.len(),
                forall|j: int| 0 <= j < i ==> (#[trigger] self.entries@[j]).key@ != key@,
            decreases self.entries@.len() - i,
        {
            let e = &self.entries[i];
            if e.key == key_owned {
                let out = crate::clone_bytes(&e.blob);
                proof {
                    assert((self.model()[i as int]).0 == key@);
                    let chosen = self.index_of(key@);
                    if chosen != i as int {
                        assert((self.model()[chosen]).0 == key@);
                        assert(false);
                    }
                }
                return Some(out);
            }
            i = i + 1;
        }
        proof {
            assert forall|i0: int| 0 <= i0 < self.model().len() implies (
            #[trigger] self.model()[i0]).0 != key@ by {
                assert(self.model()[i0].0 == self.entries@[i0].key@);
            }
        }
        None
    }

    /// Records the fully qualified path the generator should use when
    /// referencing the perfect-hash map type in emitted source.
    pub fn phf_path(&mut self, path: &str)
        ensures
            final(self).model() == old(self).model(),
            final(self).path_spec() == Some(path@),
            old(self).wf() ==> final(self).wf(),
    {
        self.path = Some(path.to_owned());
    }

    /// Serializes the accumulated entries as the source text of a static,
    /// perfect-hash lookup table, written at the end of `w`. Every value
    /// appears as the safe literal of its compressed bytes. Building
    /// consumes the builder: no entry can be added after it, and it cannot
    /// run twice.
    pub fn build(self, w: &mut ByteWriter) -> (r: Result<(), ComdeError>)
        requires
            self.wf(),
        ensures
            r is Ok,
            final(w)@ == old(w)@ + artifact_of(self.model(), self.path_spec()),
    {
        let mut pm = phf_map_new();
        proof {
            assert(self.model().take(0) =~= Seq::<(Seq<char>, Seq<u8>, Seq<u8>)>::empty());
            assert(rendered_entries(self.model().take(0)) =~= Seq::<(Seq<char>, Seq<char>)>::empty());
        }
        let mut i: usize = 0;
        while i < self.entries.len()
            invariant
                self.wf(),
                i <= self.entries@.len(),
                phf_entries(pm) == rendered_entries(self.model().take(i as int)),
                phf_path_of(pm) == "::phf"@,
            decreases self.entries@.len() - i,
        {
            let e = &self.entries[i];
            let lit = render_literal(e.blob.as_slice());
            proof {
                lemma_literal_ascii(e.blob@);
            }
            phf_map_entry(&mut pm, e.key.clone(), lit.as_slice());
            i = i + 1;
            proof {
                assert(self.model().take(i as int) =~= self.model().take(i - 1).push(
                    self.model()[i - 1],
                ));
                lemma_rendered_snoc(self.model().take(i - 1), self.model()[i - 1]);
                assert(phf_entries(pm) =~= rendered_entries(self.model().take(i as int)));
            }
        }
        proof {
            assert(self.model().take(self.entries@.len() as int) =~= self.model());
        }
        if let Some(p) = &self.path {
            phf_map_set_path(&mut pm, p.as_str());
        }
        proof {
            assert(phf_path_of(pm) == path_or_default(self.path_spec()));
            assert(phf_entries(pm) == rendered_entries(self.model()));
            assert forall|i0: int, j0: int|
                0 <= i0 < j0 < phf_entries(pm).len() implies (#[trigger] phf_entries(pm)[i0]).0
                != (#[trigger] phf_entries(pm)[j0]).0 by {
                assert(phf_entries(pm)[i0].0 == self.model()[i0].0);
                assert(phf_entries(pm)[j0].0 == self.model()[j0].0);
            }
        }
        let text = phf_map_build(&pm);
        w.write_all(text.as_str().as_bytes());
        Ok(())
    }
}

/// Convenience binding of the builder to the LZMA/xz codec.
pub type XzMap<V> = MapBuilder<V, crate::xz::XzCompressor>;

/// Convenience binding of the builder to the DEFLATE codec.
pub type DeflateMap<V> = MapBuilder<V, crate::deflate::DeflateCompressor>;

/// Convenience binding of the builder to the Snappy codec.
pub type SnappyMap<V> = MapBuilder<V, crate::snappy::SnappyCompressor>;

/// Convenience binding of the builder to the Zstandard codec.
pub type ZstdMap<V> = MapBuilder<V, crate::zstandard::ZstdCompressor>;

/// Rendering entries one by one renders the whole sequence.
proof fn lemma_rendered_snoc(m: Seq<(Seq<char>, Seq<u8>, Seq<u8>)>, t: (Seq<char>, Seq<u8>, Seq<u8>))
    ensures
        rendered_entries(m.push(t)) == rendered_entries(m).push(
            (t.0, ascii_chars_of(literal_of(t.1))),
        ),
{
    assert(rendered_entries(m.push(t)) =~= rendered_entries(m).push(
        (t.0, ascii_chars_of(literal_of(t.1))),
    ));
}

/// Map integrity: for every key a well-formed builder holds, the compressed
/// bytes stored under that key decode, under the builder's own codec, to
/// exactly the serialized bytes of the value inserted for it.
pub proof fn map_integrity<V: Compress, C: Compressor>(b: &MapBuilder<V, C>, k: Seq<char>)
    requires
        b.wf(),
        b.has_key(k),
    ensures
        C::decode_spec(b.blob_for(k)) == Some(b.original_for(k)),
{
    let i = b.index_of(k);
    assert(0 <= i < b.model().len() && b.model()[i].0 == k);
}

/// What an insertion stores is what a later lookup finds: after an upsert
/// of `k` over entries with unique keys, the builder holds `k`, and exactly
/// the inserted compressed bytes and serialized value are recorded under it.
pub proof fn upsert_lookup<V: Compress, C: Compressor>(
    b: &MapBuilder<V, C>,
    pre: Seq<(Seq<char>, Seq<u8>, Seq<u8>)>,
    k: Seq<char>,
    blob: Seq<u8>,
    orig: Seq<u8>,
)
    requires
        forall|i: int, j: int|
            0 <= i < j < pre.len() ==> (#[trigger] pre[i]).0 != (#[trigger] pre[j]).0,
        b.model() == upsert(pre, k, blob, orig),
    ensures
        b.has_key(k),
        b.blob_for(k) == blob,
        b.original_for(k) == orig,
{
    let m = b.model();
    if exists|i: int| 0 <= i < pre.len() && #[trigger] pre[i].0 == k {
        let c = choose|i: int| 0 <= i < pre.len() && #[trigger] pre[i].0 == k;
        assert(m == pre.update(c, (k, blob, orig)));
        assert(m[c].0 == k);
        let w = b.index_of(k);
        if w != c {
            assert(m[w] == pre[w]);
            assert(pre[w].0 == k);
            assert(pre[c].0 == k);
            assert(false);
        }
    } else {
        assert(m == pre.push((k, blob, orig)));
        let n = pre.len() as int;
        assert(m[n].0 == k);
        let w = b.index_of(k);
        if w != n {
            assert(m[w] == pre[w]);
            assert(pre[w].0 == k);
            assert(false);
        }
    }
}

/// Idempotent emptiness: a builder with no entries holds no key at all, so
/// every lookup in what it builds reports absence.
pub proof fn empty_builder_has_no_keys<V: Compress, C: Compressor>(b: &MapBuilder<V, C>, k: Seq<char>)
    requires
        b.model().len() == 0,
    ensures
        !b.has_key(k),
{
}

} // verus!
