//! The in-memory model of the key/value resources the engine reads and
//! writes.
//!
//! A [`KvResource`] is one backing object: its name, namespace, data map,
//! annotation map and owner references.  The data values are either opaque
//! bytes or plain text; the [`StoreValue`] trait gives both the same
//! interface (encode a rendered string, decode to text, duplicate), so
//! every stage of the engine dispatches on the backing kind exactly once.

use crate::kvmap::KvMap;
use vstd::prelude::*;
use vstd::string::StringExecFns;

verus! {

/// A backlink to the owning object, attached to resources the engine
/// creates so that they are collected together with their owner.
pub struct OwnerRef {
    pub api_version: String,
    pub kind: String,
    pub name: String,
    pub uid: String,
}

/// Ghost mirror of [`OwnerRef`].
pub struct OwnerRefView {
    pub api_version: Seq<char>,
    pub kind: Seq<char>,
    pub name: Seq<char>,
    pub uid: Seq<char>,
}

impl View for OwnerRef {
    type V = OwnerRefView;

    open spec fn view(&self) -> OwnerRefView {
        OwnerRefView {
            api_version: self.api_version@,
            kind: self.kind@,
            name: self.name@,
            uid: self.uid@,
        }
    }
}

impl DeepView for OwnerRef {
    type V = OwnerRefView;

    open spec fn deep_view(&self) -> OwnerRefView {
        self.view()
    }
}

impl OwnerRef {
    /// A field-for-field copy.
    pub fn duplicate(&self) -> (r: Self)
        ensures
            r@ == self@,
    {
        OwnerRef {
            api_version: self.api_version.clone(),
            kind: self.kind.clone(),
            name: self.name.clone(),
            uid: self.uid.clone(),
        }
    }
}

/// Relies on `core::str::from_utf8`: it succeeds exactly on valid UTF-8
/// and yields the characters that the bytes encode.
#[verifier::external_body]
fn bytes_to_text(v: &[u8]) -> (r: Option<String>)
    ensures
        r is Some <==> vstd::utf8::valid_utf8(v@),
        r matches Some(s) ==> s@ == vstd::utf8::decode_utf8(v@),
{
    match core::str::from_utf8(v) {
        Ok(s) => Some(s.to_string()),
        Err(_) => None,
    }
}

/// One value of a data map: opaque bytes or plain text, with a uniform
/// interface for the engine.
pub trait StoreValue: View + Sized {
    /// The value that stores a rendered text.
    spec fn of_text(t: Seq<char>) -> Self::V;

    /// The text a stored value reads back as, if it is valid text.
    spec fn to_text(v: Self::V) -> Option<Seq<char>>;

    /// Encoding a text always reads back as that text.
    proof fn text_roundtrip(t: Seq<char>)
        ensures
            Self::to_text(Self::of_text(t)) == Some(t),
    ;

    /// Stores a rendered text.
    fn encode(t: &String) -> (r: Self)
        ensures
            r@ == Self::of_text(t@),
    ;

    /// Reads a stored value back as text.
    fn decode(&self) -> (r: Option<String>)
        ensures
            match r {
                Some(s) => Self::to_text(self@) == Some(s@),
                None => Self::to_text(self@) is None,
            },
    ;

    /// A copy with the same view.
    fn duplicate(&self) -> (r: Self)
        ensures
            r@ == self@,
    ;
}

impl StoreValue for Vec<u8> {
    open spec fn of_text(t: Seq<char>) -> Seq<u8> {
        vstd::utf8::encode_utf8(t)
    }

    open spec fn to_text(v: Seq<u8>) -> Option<Seq<char>> {
        if vstd::utf8::valid_utf8(v) {
            Some(vstd::utf8::decode_utf8(v))
        } else {
            None
        }
    }

    proof fn text_roundtrip(t: Seq<char>) {
        vstd::utf8::encode_utf8_valid_utf8(t);
        vstd::utf8::encode_utf8_decode_utf8(t);
    }

    fn encode(t: &String) -> (r: Vec<u8>) {
        vstd::slice::slice_to_vec(t.as_str().as_bytes())
    }

    fn decode(&self) -> (r: Option<String>) {
        bytes_to_text(self.as_slice())
    }

    fn duplicate(&self) -> (r: Vec<u8>) {
        vstd::slice::slice_to_vec(self.as_slice())
    }
}

impl StoreValue for String {
    open spec fn of_text(t: Seq<char>) -> Seq<char> {
        t
    }

    open spec fn to_text(v: Seq<char>) -> Option<Seq<char>> {
        Some(v)
    }

    proof fn text_roundtrip(t: Seq<char>) {
    }

    fn encode(t: &String) -> (r: String) {
        t.clone()
    }

    fn decode(&self) -> (r: Option<String>) {
        Some(self.clone())
    }

    fn duplicate(&self) -> (r: String) {
        self.clone()
    }
}

/// Ghost mirror of [`KvResource`].
#[verifier::ext_equal]
pub struct ResourceView<VV> {
    pub name: Seq<char>,
    pub namespace: Seq<char>,
    pub data: Map<Seq<char>, VV>,
    pub annotations: Map<Seq<char>, Seq<char>>,
    pub owners: Seq<OwnerRefView>,
}

/// One backing key/value resource: identity, data, annotations, owners.
pub struct KvResource<V> {
    pub name: String,
    pub namespace: String,
    pub data: KvMap<V>,
    pub annotations: KvMap<String>,
    pub owners: Vec<OwnerRef>,
}

impl<V: View> View for KvResource<V> {
    type V = ResourceView<V::V>;

    open spec fn view(&self) -> ResourceView<V::V> {
        ResourceView {
            name: self.name@,
            namespace: self.namespace@,
            data: self.data@,
            annotations: self.annotations@,
            owners: self.owners.deep_view(),
        }
    }
}

impl<V: View> KvResource<V> {
    /// Well-formed: both maps have pairwise-distinct keys.
    pub open spec fn wf(&self) -> bool {
        self.data.wf() && self.annotations.wf()
    }
}

impl<V: StoreValue> KvResource<V> {
    /// An empty resource of the given identity, owned by the given
    /// references: what the engine creates for a declared target whose
    /// backing resource does not exist yet.
    pub fn new_empty(name: String, namespace: String, owners: Vec<OwnerRef>) -> (r: Self)
        ensures
            r@.name == name@,
            r@.namespace == namespace@,
            r@.data == Map::<Seq<char>, V::V>::empty(),
            r@.annotations == Map::<Seq<char>, Seq<char>>::empty(),
            r@.owners == owners.deep_view(),
            r.wf(),
    {
        KvResource {
            name,
            namespace,
            data: KvMap::new(),
            annotations: KvMap::new(),
            owners,
        }
    }

    /// Reads the text under a data key: `None` if the key is absent,
    /// `Some(None)` if its value is not valid text.
    pub fn read_value(&self, key: &String) -> (r: Option<Option<String>>)
        requires
            self.wf(),
        ensures
            match r {
                Some(t) => self@.data.contains_key(key@) && (match t {
                    Some(s) => V::to_text(self@.data[key@]) == Some(s@),
                    None => V::to_text(self@.data[key@]) is None,
                }),
                None => !self@.data.contains_key(key@),
            },
    {
        match self.data.get(key) {
            Some(v) => Some(v.decode()),
            None => None,
        }
    }

    /// Writes a rendered text under a data key, overwriting any earlier
    /// value and leaving every other key unchanged.
    pub fn write_value(&mut self, key: String, text: &String)
        requires
            old(self).wf(),
        ensures
            final(self).wf(),
            final(self)@ == (ResourceView {
                data: old(self)@.data.insert(key@, V::of_text(text@)),
                ..old(self)@
            }),
    {
        self.data.insert(key, V::encode(text));
    }

    /// Removes a data key, leaving every other key unchanged.
    pub fn delete_value(&mut self, key: &String)
        requires
            old(self).wf(),
        ensures
            final(self).wf(),
            final(self)@ == (ResourceView { data: old(self)@.data.remove(key@), ..old(self)@ }),
    {
        self.data.remove(key);
    }

    /// Sets an annotation, overwriting any earlier value.
    pub fn set_annotation(&mut self, key: String, value: String)
        requires
            old(self).wf(),
        ensures
            final(self).wf(),
            final(self)@ == (ResourceView {
                annotations: old(self)@.annotations.insert(key@, value@),
                ..old(self)@
            }),
    {
        self.annotations.insert(key, value);
    }

    /// Removes an annotation.
    pub fn remove_annotation(&mut self, key: &String)
        requires
            old(self).wf(),
        ensures
            final(self).wf(),
            final(self)@ == (ResourceView {
                annotations: old(self)@.annotations.remove(key@),
                ..old(self)@
            }),
    {
        self.annotations.remove(key);
    }

    /// A copy with the same view.
    pub fn duplicate(&self) -> (r: Self)
        requires
            self.wf(),
        ensures
            r@ == self@,
            r.wf(),
    {
        KvResource {
            name: self.name.clone(),
            namespace: self.namespace.clone(),
            data: dup_kvmap(&self.data),
            annotations: dup_kvmap(&self.annotations),
            owners: dup_owners(&self.owners),
        }
    }
}

/// An entry-for-entry copy of a map of store values.
pub fn dup_kvmap<V: StoreValue>(m: &KvMap<V>) -> (r: KvMap<V>)
    requires
        m.wf(),
    ensures
        r@ == m@,
        r.wf(),
{
    let ghost s = m.entry_seq();
    let mut r: KvMap<V> = KvMap::new();
    let n = m.len();
    let mut i: usize = 0;
    while i < n
        invariant
            n == s.len(),
            i <= n,
            m.wf(),
            m.entry_seq() == s,
            r.wf(),
            r@ == crate::kvmap::entries_map(s.take(i as int)),
        decreases n - i,
    {
        let (k, v) = m.entry_at(i);
        r.insert(k.clone(), v.duplicate());
        proof {
            assert(s.take(i + 1).drop_last() =~= s.take(i as int));
            assert(s.take(i + 1).last() == s[i as int]);
        }
        i = i + 1;
    }
    proof {
        assert(s.take(n as int) =~= s);
    }
    r
}

/// A reference-for-reference copy of an owner list.
pub fn dup_owners(os: &Vec<OwnerRef>) -> (r: Vec<OwnerRef>)
    ensures
        r.deep_view() == os.deep_view(),
{
    let mut r: Vec<OwnerRef> = Vec::new();
    let n = os.len();
    let mut i: usize = 0;
    while i < n
        invariant
            n == os.len(),
            i <= n,
            r.len() == i,
            forall|j: int| 0 <= j < i ==> r.deep_view()[j] == os.deep_view()[j],
        decreases n - i,
    {
        r.push(os[i].duplicate());
        i = i + 1;
    }
    proof {
        assert(r.deep_view() =~= os.deep_view());
    }
    r
}

impl<V: View> DeepView for KvResource<V> {
    type V = ResourceView<V::V>;

    open spec fn deep_view(&self) -> ResourceView<V::V> {
        self.view()
    }
}

/// The snapshot of the namespace's resources a reconcile pass works on,
/// each kind keyed by backing resource name.
pub struct StoreState {
    pub secrets: KvMap<KvResource<Vec<u8>>>,
    pub configmaps: KvMap<KvResource<String>>,
}

/// Ghost mirror of [`StoreState`]: both kinds keyed by backing name.
#[verifier::ext_equal]
pub struct StoreView {
    pub secrets: Map<Seq<char>, ResourceView<Seq<u8>>>,
    pub configmaps: Map<Seq<char>, ResourceView<Seq<char>>>,
}

impl View for StoreState {
    type V = StoreView;

    open spec fn view(&self) -> StoreView {
        StoreView { secrets: self.secrets@, configmaps: self.configmaps@ }
    }
}

/// Every map well-formed, including the maps inside each resource.
pub open spec fn res_map_wf<V: View>(m: KvMap<KvResource<V>>) -> bool {
    m.wf() && forall|i: int|
        0 <= i < m.entry_seq().len() ==> (#[trigger] m.entry_seq()[i]).value.wf()
}

impl StoreState {
    /// Well-formed: all four map layers have distinct keys.
    pub open spec fn wf(&self) -> bool {
        res_map_wf(self.secrets) && res_map_wf(self.configmaps)
    }

    /// An empty snapshot.
    pub fn new() -> (r: Self)
        ensures
            r.wf(),
            r@.secrets == Map::<Seq<char>, ResourceView<Seq<u8>>>::empty(),
            r@.configmaps == Map::<Seq<char>, ResourceView<Seq<char>>>::empty(),
    {
        StoreState { secrets: KvMap::new(), configmaps: KvMap::new() }
    }
}

/// A map whose entries each hold a well-formed resource stays that way
/// when an entry is removed.
pub proof fn lemma_res_map_wf_remove<V: View>(
    m0: KvMap<KvResource<V>>,
    m1: KvMap<KvResource<V>>,
    i: int,
)
    requires
        res_map_wf(m0),
        m1.wf(),
        0 <= i < m0.entry_seq().len(),
        m1.entry_seq() == m0.entry_seq().remove(i),
    ensures
        res_map_wf(m1),
{
    assert forall|k: int| 0 <= k < m1.entry_seq().len() implies (#[trigger] m1.entry_seq()[
        k
    ]).value.wf() by {
        if k < i {
            assert(m1.entry_seq()[k] == m0.entry_seq()[k]);
        } else {
            assert(m1.entry_seq()[k] == m0.entry_seq()[k + 1]);
        }
    }
}

/// A map whose entries each hold a well-formed resource stays that way
/// when every entry is an old entry or one given well-formed value.
pub proof fn lemma_res_map_wf_insert<V: View>(
    m0: KvMap<KvResource<V>>,
    m1: KvMap<KvResource<V>>,
    value: KvResource<V>,
)
    requires
        res_map_wf(m0),
        value.wf(),
        m1.wf(),
        forall|i: int|
            0 <= i < m1.entry_seq().len() ==> (#[trigger] m1.entry_seq()[i]).value == value
                || exists|j: int|
                #![auto]
                0 <= j < m0.entry_seq().len() && m1.entry_seq()[i].value == m0.entry_seq()[
                    j
                ].value,
    ensures
        res_map_wf(m1),
{
    assert forall|k: int| 0 <= k < m1.entry_seq().len() implies (#[trigger] m1.entry_seq()[
        k
    ]).value.wf() by {
        if m1.entry_seq()[k].value != value {
            let j = choose|j: int|
                #![auto]
                0 <= j < m0.entry_seq().len() && m1.entry_seq()[k].value == m0.entry_seq()[
                    j
                ].value;
            assert(m0.entry_seq()[j].value.wf());
        }
    }
}

/// The fixed annotation key that marks a target resource as watched.
pub open spec fn watched_by_key_spec() -> Seq<char> {
    "badhouseplants.net/watched-by-shu"@
}

/// The fixed annotation key that marks a target resource as watched.
pub fn watched_by_key() -> (r: String)
    ensures
        r@ == watched_by_key_spec(),
{
    String::from_str("badhouseplants.net/watched-by-shu")
}

/// The fixed finalizer token that blocks deletion until cleanup ran.
pub open spec fn finalizer_token_spec() -> Seq<char> {
    "badhouseplants.net/shu-cleanup"@
}

/// The fixed finalizer token that blocks deletion until cleanup ran.
pub fn finalizer_token() -> (r: String)
    ensures
        r@ == finalizer_token_spec(),
{
    String::from_str("badhouseplants.net/shu-cleanup")
}

} // verus!
