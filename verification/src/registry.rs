//! The type registry: the process-wide catalog mapping canonical
//! type names to payload codecs, and the wire codec built on it.
//!
//! The registry is populated during a startup phase and then sealed;
//! after sealing every mutation is rejected. Serialization looks the
//! value's dynamic type name up; deserialization reads the wire
//! header and defers the payload, constructing a lazy value that
//! shares the received buffer.

use std::sync::Arc;
use vstd::prelude::*;
use vstd::slice::slice_subrange;
use vstd::utf8::{decode_utf8, encode_utf8, valid_utf8};

use crate::arc_value::ArcValueType;
use crate::cell::{ErasedArc, LazyDataWithOffset};
use crate::codec::{decode_exact_kind, decode_ok_spec, decode_payload, encode_payload,
    string_from_utf8};
use crate::errors::ValueError;
use crate::names::{short_name, short_name_spec, str_eq};
use crate::value::{
    kind_matches, kind_name_spec, kinds_eq, value_matches_kind, value_name_spec, ConcreteValue,
    ValueCategory, ValueKind,
};
use crate::wire::{
    category_byte, category_byte_spec, category_of_byte, category_of_byte_spec, is_prefix_of,
    payload_of, wire_bytes,
};

verus! {

/// A deserializer handle: the codec descriptor for one registered
/// type, hand-outable and cloneable.
#[derive(Debug)]
pub struct DeserializerFnWrapper {
    /// The kind this handle decodes payloads into.
    pub kind: ValueKind,
}

impl DeserializerFnWrapper {
    /// Wrap a codec descriptor.
    pub fn new(kind: ValueKind) -> (r: Self)
        ensures
            r.kind == kind,
    {
        DeserializerFnWrapper { kind }
    }

    /// Decode a payload with this handle.
    pub fn call(&self, bytes: &[u8]) -> (r: Result<ConcreteValue, ValueError>)
        ensures
            r matches Ok(v) ==> kind_matches(&self.kind, &v),
            r matches Ok(v) ==> is_prefix_of(payload_of(&v), bytes@),
            forall|w: ConcreteValue|
                kind_matches(&self.kind, &w) && bytes@ == #[trigger] payload_of(&w) ==> r is Ok,
            decode_exact_kind(&self.kind) ==> (r is Ok <==> decode_ok_spec(&self.kind, bytes@)),
            r matches Err(e) ==> e == ValueError::DeserializationError,
    {
        decode_payload(&self.kind, bytes)
    }
}

impl Clone for DeserializerFnWrapper {
    /// Clones decode exactly as the original does.
    fn clone(&self) -> (r: Self)
        ensures
            kinds_eq(&r.kind, &self.kind),
    {
        DeserializerFnWrapper { kind: self.kind.clone() }
    }
}

/// The name `name` is a key of the association list `l`.
pub open spec fn has_key(l: Seq<(String, ValueKind)>, name: Seq<char>) -> bool {
    exists|i: int| 0 <= i < l.len() && (#[trigger] l[i]).0@ == name
}

/// The index of the key `name` in `l`.
pub open spec fn key_index(l: Seq<(String, ValueKind)>, name: Seq<char>) -> int {
    choose|i: int| 0 <= i < l.len() && (#[trigger] l[i]).0@ == name
}

/// The kind registered under `name` in `l`.
pub open spec fn kind_for(l: Seq<(String, ValueKind)>, name: Seq<char>) -> ValueKind {
    l[key_index(l, name)].1
}

/// Keys occur at most once.
pub open spec fn keys_unique(l: Seq<(String, ValueKind)>) -> bool {
    forall|i: int, j: int|
        0 <= i < j < l.len() ==> (#[trigger] l[i]).0@ != (#[trigger] l[j]).0@
}

/// Find the kind registered under `name`.
fn lookup<'a>(l: &'a Vec<(String, ValueKind)>, name: &str) -> (r: Option<&'a ValueKind>)
    requires
        keys_unique(l@),
    ensures
        r is Some <==> has_key(l@, name@),
        r matches Some(k) ==> *k == kind_for(l@, name@),
{
    let n = l.len();
    let mut i: usize = 0;
    while i < n
        invariant
            n == l.len(),
            0 <= i <= n,
            keys_unique(l@),
            forall|j: int| 0 <= j < i ==> (#[trigger] l@[j]).0@ != name@,
        decreases n - i,
    {
        let p = &l[i];
        if str_eq(p.0.as_str(), name) {
            proof {
                assert(l@[i as int].0@ == name@);
                assert(has_key(l@, name@));
                let j = key_index(l@, name@);
                assert(0 <= j < l@.len() && l@[j].0@ == name@);
                assert(j == i as int);
            }
            return Some(&p.1);
        }
        i += 1;
    }
    proof {
        if has_key(l@, name@) {
            let j = key_index(l@, name@);
            assert(l@[j].0@ == name@);
        }
    }
    None
}

/// Insert or overwrite the kind registered under `name`.
fn upsert(l: &mut Vec<(String, ValueKind)>, name: String, kind: ValueKind)
    requires
        keys_unique(old(l)@),
    ensures
        keys_unique(final(l)@),
        has_key(final(l)@, name@),
        kind_for(final(l)@, name@) == kind,
        forall|m: Seq<char>|
            m != name@ ==> (#[trigger] has_key(final(l)@, m) == has_key(old(l)@, m)),
        forall|m: Seq<char>|
            m != name@ && has_key(old(l)@, m) ==> #[trigger] kind_for(final(l)@, m) == kind_for(
                old(l)@,
                m,
            ),
{
    let ghost pre = l@;
    let ghost nv = name@;
    let n = l.len();
    let mut i: usize = 0;
    while i < n
        invariant
            n == l.len(),
            l@ == pre,
            pre == old(l)@,
            0 <= i <= n,
            keys_unique(pre),
            forall|j: int| 0 <= j < i ==> (#[trigger] pre[j]).0@ != nv,
            nv == name@,
        decreases n - i,
    {
        if str_eq(l[i].0.as_str(), name.as_str()) {
            l[i] = (name, kind);
            proof {
                assert(l@[i as int].0@ == nv);
                assert(forall|j: int|
                    0 <= j < pre.len() && j != i ==> l@[j] == pre[j]);
                lemma_upsert_at(pre, l@, i as int, nv);
            }
            return ;
        }
        i += 1;
    }
    l.push((name, kind));
    proof {
        let post = l@;
        assert(post[post.len() - 1].0@ == nv);
        assert(has_key(post, nv));
        assert forall|m: Seq<char>| m != nv implies (#[trigger] has_key(post, m) == has_key(
            pre,
            m,
        )) by {
            if has_key(post, m) {
                let j = key_index(post, m);
                assert(post[j].0@ == m);
                assert(j < pre.len());
                assert(pre[j] == post[j]);
            }
            if has_key(pre, m) {
                let j = key_index(pre, m);
                assert(post[j] == pre[j]);
                assert(has_key(post, m));
            }
        }
        lemma_frame_kinds(pre, post, nv);
        let j = key_index(post, nv);
        assert(post[j].0@ == nv);
        assert(j == post.len() - 1) by {
            if j < post.len() - 1 {
                assert(pre[j] == post[j]);
            }
        }
    }
}

/// After an update at the key's own index, every other key is
/// untouched.
proof fn lemma_upsert_at(pre: Seq<(String, ValueKind)>, post: Seq<(String, ValueKind)>, i: int, name: Seq<char>)
    requires
        keys_unique(pre),
        0 <= i < pre.len(),
        pre[i].0@ == name,
        post.len() == pre.len(),
        post[i].0@ == name,
        forall|j: int| 0 <= j < pre.len() && j != i ==> post[j] == pre[j],
    ensures
        keys_unique(post),
        has_key(post, name),
        kind_for(post, name) == post[i].1,
        forall|m: Seq<char>| m != name ==> (#[trigger] has_key(post, m) == has_key(pre, m)),
        forall|m: Seq<char>|
            m != name && has_key(pre, m) ==> #[trigger] kind_for(post, m) == kind_for(pre, m),
{
    assert forall|a: int, b: int| 0 <= a < b < post.len() implies (#[trigger] post[a]).0@ != (
    #[trigger] post[b]).0@ by {
        assert(pre[a].0@ != pre[b].0@);
    }
    assert(has_key(post, name));
    let j = key_index(post, name);
    assert(post[j].0@ == name);
    assert(j == i) by {
        if j != i {
            assert(post[j] == pre[j]);
            assert(pre[j].0@ != pre[i].0@);
        }
    }
    assert forall|m: Seq<char>| m != name implies (#[trigger] has_key(post, m) == has_key(
        pre,
        m,
    )) by {
        if has_key(post, m) {
            let k = key_index(post, m);
            assert(post[k].0@ == m);
            assert(k != i);
            assert(pre[k] == post[k]);
        }
        if has_key(pre, m) {
            let k = key_index(pre, m);
            assert(pre[k].0@ == m);
            assert(k != i);
            assert(post[k] == pre[k]);
            assert(has_key(post, m));
        }
    }
    lemma_frame_kinds(pre, post, name);
}

/// When every entry off the updated key is untouched, every other
/// key maps to its old kind.
proof fn lemma_frame_kinds(pre: Seq<(String, ValueKind)>, post: Seq<(String, ValueKind)>, name: Seq<char>)
    requires
        keys_unique(pre),
        keys_unique(post),
        forall|j: int|
            0 <= j < post.len() && (#[trigger] post[j]).0@ != name ==> j < pre.len() && post[j]
                == pre[j],
        forall|j: int|
            0 <= j < pre.len() && (#[trigger] pre[j]).0@ != name ==> j < post.len() && pre[j]
                == post[j],
    ensures
        forall|m: Seq<char>|
            m != name && has_key(pre, m) && has_key(post, m) ==> #[trigger] kind_for(post, m)
                == kind_for(pre, m),
{
    assert forall|m: Seq<char>|
        m != name && has_key(pre, m) && has_key(post, m) implies #[trigger] kind_for(post, m)
        == kind_for(pre, m) by {
        let a = key_index(pre, m);
        let b = key_index(post, m);
        assert(pre[a].0@ == m);
        assert(post[b].0@ == m);
        assert(post[b] == pre[b]);
        assert(pre[a].0@ == pre[b].0@);
        assert(a == b) by {
            if a != b {
                assert(pre[a].0@ != pre[b].0@);
            }
        }
    }
}

/// The canonical names of the standard kinds are pairwise distinct
/// (their lengths already differ).
proof fn lemma_default_names_distinct()
    ensures
        kind_name_spec(&ValueKind::I64) == "i64"@,
        kind_name_spec(&ValueKind::Bool) == "bool"@,
        kind_name_spec(&ValueKind::Text) == "alloc::string::String"@,
        kind_name_spec(&ValueKind::IntList) == "alloc::vec::Vec<i64>"@,
        kind_name_spec(&ValueKind::Entries) == "std::collections::HashMap<String, i64>"@,
        kind_name_spec(&ValueKind::Raw) == ""@,
        "i64"@.len() == 3,
        "bool"@.len() == 4,
        "alloc::string::String"@.len() == 21,
        "alloc::vec::Vec<i64>"@.len() == 20,
        "std::collections::HashMap<String, i64>"@.len() == 38,
        ""@.len() == 0,
{
    reveal_strlit("i64");
    reveal_strlit("bool");
    reveal_strlit("alloc::string::String");
    reveal_strlit("alloc::vec::Vec<i64>");
    reveal_strlit("std::collections::HashMap<String, i64>");
    reveal_strlit("");
}

/// Registry for type-specific serialization and deserialization
/// handlers.
pub struct SerializerRegistry {
    serializers: Vec<(String, ValueKind)>,
    deserializers: Vec<(String, ValueKind)>,
    is_sealed: bool,
}

impl SerializerRegistry {
    /// The registry's invariant: each catalog keys every name at
    /// most once.
    pub closed spec fn wf(&self) -> bool {
        keys_unique(self.serializers@) && keys_unique(self.deserializers@)
    }

    /// The registry is sealed.
    pub closed spec fn sealed_spec(&self) -> bool {
        self.is_sealed
    }

    /// A serializer is registered under `name`.
    pub closed spec fn s_has(&self, name: Seq<char>) -> bool {
        has_key(self.serializers@, name)
    }

    /// The kind whose serializer is registered under `name`.
    pub closed spec fn s_kind(&self, name: Seq<char>) -> ValueKind {
        kind_for(self.serializers@, name)
    }

    /// A deserializer is registered under `name`.
    pub closed spec fn d_has(&self, name: Seq<char>) -> bool {
        has_key(self.deserializers@, name)
    }

    /// The kind whose deserializer is registered under `name`.
    pub closed spec fn d_kind(&self, name: Seq<char>) -> ValueKind {
        kind_for(self.deserializers@, name)
    }

    /// Create an empty, unsealed registry.
    pub fn new() -> (r: Self)
        ensures
            r.wf(),
            !r.sealed_spec(),
            forall|m: Seq<char>| !r.s_has(m) && !r.d_has(m),
    {
        SerializerRegistry { serializers: Vec::new(), deserializers: Vec::new(), is_sealed: false }
    }

    /// Seal the registry: from here on every mutation is rejected.
    pub fn seal(&mut self)
        requires
            old(self).wf(),
        ensures
            final(self).wf(),
            final(self).sealed_spec(),
            forall|m: Seq<char>|
                (#[trigger] final(self).s_has(m) == old(self).s_has(m)) && (#[trigger] final(self).d_has(m) == old(self).d_has(m)),
            forall|m: Seq<char>|
                (old(self).s_has(m) ==> #[trigger] final(self).s_kind(m) == old(self).s_kind(m))
                    && (old(self).d_has(m) ==> #[trigger] final(self).d_kind(m) == old(self).d_kind(m)),
    {
        self.is_sealed = true;
    }

    /// Whether the registry is sealed.
    pub fn is_sealed(&self) -> (r: bool)
        ensures
            r == self.sealed_spec(),
    {
        self.is_sealed
    }

    /// Register a kind for serialization and deserialization under
    /// its canonical name and, if that is free, its short name.
    /// Registering the same kind again silently overwrites; the
    /// short name keeps its first registrant. Fails once the
    /// registry is sealed.
    pub fn register(&mut self, kind: &ValueKind) -> (r: Result<(), ValueError>)
        requires
            old(self).wf(),
        ensures
            final(self).wf(),
            final(self).sealed_spec() == old(self).sealed_spec(),
            old(self).sealed_spec() ==> (r matches Err(e) && e == ValueError::Sealed
                && *final(self) == *old(self)),
            !old(self).sealed_spec() ==> r is Ok,
            !old(self).sealed_spec() ==> {
                let cname = kind_name_spec(kind);
                let sname = short_name_spec(cname);
                &&& final(self).s_has(cname) && kinds_eq(&final(self).s_kind(cname), kind)
                &&& final(self).d_has(cname) && kinds_eq(&final(self).d_kind(cname), kind)
                &&& (sname != cname && !old(self).d_has(sname) ==> final(self).d_has(sname)
                    && kinds_eq(&final(self).d_kind(sname), kind))
                &&& (sname != cname && old(self).d_has(sname) ==> final(self).d_has(sname)
                    && final(self).d_kind(sname) == old(self).d_kind(sname))
                &&& forall|m: Seq<char>|
                    m != cname ==> (#[trigger] final(self).s_has(m) == old(self).s_has(m)) && (
                    old(self).s_has(m) ==> final(self).s_kind(m) == old(self).s_kind(m))
                &&& forall|m: Seq<char>| old(self).d_has(m) ==> #[trigger] final(self).d_has(m)
                &&& forall|m: Seq<char>|
                    m != cname && m != sname ==> (#[trigger] final(self).d_has(m) == old(self).d_has(m)) && (old(self).d_has(m) ==> final(self).d_kind(m) == old(self).d_kind(m))
            },
    {
        if self.is_sealed {
            return Err(ValueError::Sealed);
        }
        let cname = kind.canonical_name();
        let sname = short_name(cname.as_str());
        upsert(&mut self.serializers, cname.clone(), kind.clone());
        upsert(&mut self.deserializers, cname.clone(), kind.clone());
        if !str_eq(sname.as_str(), cname.as_str()) {
            let already = match lookup(&self.deserializers, sname.as_str()) {
                Some(_) => true,
                None => false,
            };
            if !already {
                upsert(&mut self.deserializers, sname, kind.clone());
            }
        }
        Ok(())
    }

    /// Register the mapping kind: entries of text keys and 64-bit
    /// values. Fails once the registry is sealed.
    pub fn register_map(&mut self) -> (r: Result<(), ValueError>)
        requires
            old(self).wf(),
        ensures
            final(self).wf(),
            final(self).sealed_spec() == old(self).sealed_spec(),
            old(self).sealed_spec() ==> (r matches Err(e) && e == ValueError::Sealed
                && *final(self) == *old(self)),
            !old(self).sealed_spec() ==> r is Ok,
            !old(self).sealed_spec() ==> {
                let cname = kind_name_spec(&ValueKind::Entries);
                let sname = short_name_spec(cname);
                &&& final(self).s_has(cname) && kinds_eq(
                    &final(self).s_kind(cname),
                    &ValueKind::Entries,
                )
                &&& final(self).d_has(cname) && kinds_eq(
                    &final(self).d_kind(cname),
                    &ValueKind::Entries,
                )
                &&& (sname != cname && !old(self).d_has(sname) ==> final(self).d_has(sname)
                    && kinds_eq(&final(self).d_kind(sname), &ValueKind::Entries))
                &&& (sname != cname && old(self).d_has(sname) ==> final(self).d_has(sname)
                    && final(self).d_kind(sname) == old(self).d_kind(sname))
                &&& forall|m: Seq<char>|
                    m != cname ==> (#[trigger] final(self).s_has(m) == old(self).s_has(m)) && (
                    old(self).s_has(m) ==> final(self).s_kind(m) == old(self).s_kind(m))
                &&& forall|m: Seq<char>| old(self).d_has(m) ==> #[trigger] final(self).d_has(m)
                &&& forall|m: Seq<char>|
                    m != cname && m != sname ==> (#[trigger] final(self).d_has(m) == old(
                        self,
                    ).d_has(m)) && (old(self).d_has(m) ==> final(self).d_kind(m) == old(
                        self,
                    ).d_kind(m))
            },
    {
        self.register(&ValueKind::Entries)
    }

    /// Insert or overwrite a deserializer under an explicit name,
    /// bypassing the normal name derivation; used for aliasing.
    /// Fails once the registry is sealed.
    pub fn register_custom_deserializer(
        &mut self,
        type_label: &str,
        deserializer: DeserializerFnWrapper,
    ) -> (r: Result<(), ValueError>)
        requires
            old(self).wf(),
        ensures
            final(self).wf(),
            final(self).sealed_spec() == old(self).sealed_spec(),
            old(self).sealed_spec() ==> (r matches Err(e) && e == ValueError::Sealed
                && *final(self) == *old(self)),
            !old(self).sealed_spec() ==> {
                &&& r is Ok
                &&& final(self).d_has(type_label@)
                &&& final(self).d_kind(type_label@) == deserializer.kind
                &&& forall|m: Seq<char>|
                    (#[trigger] final(self).s_has(m) == old(self).s_has(m)) && (old(self).s_has(m)
                        ==> final(self).s_kind(m) == old(self).s_kind(m))
                &&& forall|m: Seq<char>|
                    m != type_label@ ==> (#[trigger] final(self).d_has(m) == old(self).d_has(m))
                        && (old(self).d_has(m) ==> final(self).d_kind(m) == old(self).d_kind(m))
            },
    {
        if self.is_sealed {
            return Err(ValueError::Sealed);
        }
        upsert(&mut self.deserializers, type_label.to_owned(), deserializer.kind);
        Ok(())
    }

    /// Initialize a registry with the standard kinds registered:
    /// the integer, boolean and text primitives, the integer list,
    /// the mapping entries, and the raw-bytes kind.
    pub fn with_defaults() -> (r: Self)
        ensures
            r.wf(),
            !r.sealed_spec(),
            r.s_has(kind_name_spec(&ValueKind::I64)),
            r.s_has(kind_name_spec(&ValueKind::Bool)),
            r.s_has(kind_name_spec(&ValueKind::Text)),
            r.s_has(kind_name_spec(&ValueKind::IntList)),
            r.s_has(kind_name_spec(&ValueKind::Entries)),
            r.s_has(kind_name_spec(&ValueKind::Raw)),
            r.d_has(kind_name_spec(&ValueKind::I64)),
            r.d_has(kind_name_spec(&ValueKind::Bool)),
            r.d_has(kind_name_spec(&ValueKind::Text)),
            r.d_has(kind_name_spec(&ValueKind::IntList)),
            r.d_has(kind_name_spec(&ValueKind::Entries)),
            r.d_has(kind_name_spec(&ValueKind::Raw)),
            kinds_eq(&r.s_kind(kind_name_spec(&ValueKind::I64)), &ValueKind::I64),
            kinds_eq(&r.s_kind(kind_name_spec(&ValueKind::Bool)), &ValueKind::Bool),
            kinds_eq(&r.s_kind(kind_name_spec(&ValueKind::Text)), &ValueKind::Text),
            kinds_eq(&r.s_kind(kind_name_spec(&ValueKind::IntList)), &ValueKind::IntList),
            kinds_eq(&r.s_kind(kind_name_spec(&ValueKind::Entries)), &ValueKind::Entries),
            kinds_eq(&r.s_kind(kind_name_spec(&ValueKind::Raw)), &ValueKind::Raw),
    {
        let mut r = Self::new();
        let _ = r.register(&ValueKind::I64);
        let ghost s1 = r;
        let _ = r.register(&ValueKind::Bool);
        proof {
            lemma_default_names_distinct();
            assert(s1.s_has("i64"@));
            assert(kinds_eq(&s1.s_kind("i64"@), &ValueKind::I64));
            assert(r.s_has("i64"@));
            assert(r.s_kind("i64"@) == s1.s_kind("i64"@));
            assert(kinds_eq(&r.s_kind("i64"@), &ValueKind::I64));
        }
        let _ = r.register(&ValueKind::Text);
        proof {
            lemma_default_names_distinct();
            assert(r.s_has("i64"@) && kinds_eq(&r.s_kind("i64"@), &ValueKind::I64));
            assert(r.s_has("bool"@) && kinds_eq(&r.s_kind("bool"@), &ValueKind::Bool));
        }
        let _ = r.register(&ValueKind::IntList);
        proof {
            lemma_default_names_distinct();
            assert(r.s_has("i64"@) && kinds_eq(&r.s_kind("i64"@), &ValueKind::I64));
            assert(r.s_has("bool"@) && kinds_eq(&r.s_kind("bool"@), &ValueKind::Bool));
            assert(r.s_has("alloc::string::String"@) && kinds_eq(
                &r.s_kind("alloc::string::String"@),
                &ValueKind::Text,
            ));
        }
        let _ = r.register(&ValueKind::Entries);
        proof {
            lemma_default_names_distinct();
            assert(r.s_has("i64"@) && kinds_eq(&r.s_kind("i64"@), &ValueKind::I64));
            assert(r.s_has("bool"@) && kinds_eq(&r.s_kind("bool"@), &ValueKind::Bool));
            assert(r.s_has("alloc::string::String"@) && kinds_eq(
                &r.s_kind("alloc::string::String"@),
                &ValueKind::Text,
            ));
            assert(r.s_has("alloc::vec::Vec<i64>"@) && kinds_eq(
                &r.s_kind("alloc::vec::Vec<i64>"@),
                &ValueKind::IntList,
            ));
        }
        let _ = r.register(&ValueKind::Raw);
        proof {
            lemma_default_names_distinct();
            assert(r.s_has("i64"@) && kinds_eq(&r.s_kind("i64"@), &ValueKind::I64));
            assert(r.s_has("bool"@) && kinds_eq(&r.s_kind("bool"@), &ValueKind::Bool));
            assert(r.s_has("alloc::string::String"@) && kinds_eq(
                &r.s_kind("alloc::string::String"@),
                &ValueKind::Text,
            ));
            assert(r.s_has("alloc::vec::Vec<i64>"@) && kinds_eq(
                &r.s_kind("alloc::vec::Vec<i64>"@),
                &ValueKind::IntList,
            ));
            assert(r.s_has("std::collections::HashMap<String, i64>"@) && kinds_eq(
                &r.s_kind("std::collections::HashMap<String, i64>"@),
                &ValueKind::Entries,
            ));
        }
        proof {
            lemma_default_names_distinct();
        }
        r
    }

    /// Serialize a value's payload using the handler registered for
    /// `type_label`: unknown names and mismatched dynamic types are
    /// rejected; otherwise the payload encoding is returned.
    pub fn serialize(&self, value: &ConcreteValue, type_label: &str) -> (r: Result<
        Vec<u8>,
        ValueError,
    >)
        requires
            self.wf(),
        ensures
            !self.s_has(type_label@) ==> (r matches Err(e) && e == ValueError::UnknownType),
            self.s_has(type_label@) && !kind_matches(&self.s_kind(type_label@), value) ==> (
            r matches Err(e) && e == ValueError::TypeMismatch),
            self.s_has(type_label@) && kind_matches(&self.s_kind(type_label@), value) ==> (
            r matches Ok(b) && b@ == payload_of(value)),
    {
        match lookup(&self.serializers, type_label) {
            None => Err(ValueError::UnknownType),
            Some(kind) => {
                if !value_matches_kind(kind, value) {
                    Err(ValueError::TypeMismatch)
                } else {
                    Ok(encode_payload(value))
                }
            },
        }
    }


    /// Get a clone of the deserializer handle registered under
    /// `type_label`, if any.
    pub fn get_deserializer_arc(&self, type_label: &str) -> (r: Option<DeserializerFnWrapper>)
        requires
            self.wf(),
        ensures
            r is Some <==> self.d_has(type_label@),
            r matches Some(w) ==> kinds_eq(&w.kind, &self.d_kind(type_label@)),
    {
        match lookup(&self.deserializers, type_label) {
            None => None,
            Some(kind) => Some(DeserializerFnWrapper { kind: kind.clone() }),
        }
    }

    /// Serialize a value to its self-describing wire form.
    ///
    /// A null value becomes the single null category byte. A lazy
    /// value is re-emitted from its declared header fields and its
    /// original payload slice, verbatim and without decoding. An
    /// eager value gets its category byte, its length-prefixed
    /// canonical type name, and its payload: from the registered
    /// serializer for the primitive, list, mapping and struct
    /// categories, or the raw buffer itself for the bytes category.
    pub fn serialize_value(&self, value: &ArcValueType) -> (r: Result<Arc<Vec<u8>>, ValueError>)
        requires
            self.wf(),
            value.wf(),
        ensures
            value.is_empty_cell() && value.category == ValueCategory::Null ==> (r matches Ok(b)
                && b@ == seq![5u8]),
            value.is_empty_cell() && value.category != ValueCategory::Null ==> (r matches Err(e)
                && e == ValueError::InvalidState),
            value.is_lazy() && value.category == ValueCategory::Null ==> (r matches Err(e) && e
                == ValueError::InvalidState),
            value.is_lazy() && value.category != ValueCategory::Null ==> (r matches Ok(b) && b@
                == wire_bytes(
                value.category,
                value.lazy_data().type_label@,
                value.lazy_data().payload(),
            )),
            value.is_eager() && value.category == ValueCategory::Null ==> (r matches Ok(b) && b@
                == seq![5u8]),
            value.is_eager() && value.category != ValueCategory::Null ==> {
                let v = value.eager_value();
                let cname = value_name_spec(&v);
                &&& (encode_utf8(cname).len() > 255 ==> (r matches Err(e) && e
                    == ValueError::TypeNameTooLong))
                &&& (encode_utf8(cname).len() <= 255 && value.category == ValueCategory::Bytes
                    && v is Raw ==> (r matches Ok(b) && b@ == wire_bytes(
                    value.category,
                    cname,
                    v->Raw_0@,
                )))
                &&& (encode_utf8(cname).len() <= 255 && value.category == ValueCategory::Bytes
                    && !(v is Raw) ==> (r matches Err(e) && e == ValueError::TypeMismatch))
                &&& (encode_utf8(cname).len() <= 255 && value.category != ValueCategory::Bytes
                    && !self.s_has(cname) ==> (r matches Err(e) && e == ValueError::UnknownType))
                &&& (encode_utf8(cname).len() <= 255 && value.category != ValueCategory::Bytes
                    && self.s_has(cname) && !kind_matches(&self.s_kind(cname), &v) ==> (
                r matches Err(e) && e == ValueError::TypeMismatch))
                &&& (encode_utf8(cname).len() <= 255 && value.category != ValueCategory::Bytes
                    && self.s_has(cname) && kind_matches(&self.s_kind(cname), &v) ==> (
                r matches Ok(b) && b@ == wire_bytes(value.category, cname, payload_of(&v))))
            },
    {
        match &value.value {
            None => {
                if matches!(value.category, ValueCategory::Null) {
                    let mut out: Vec<u8> = Vec::new();
                    out.push(5);
                    proof {
                        assert(out@ =~= seq![5u8]);
                    }
                    Ok(Arc::new(out))
                } else {
                    Err(ValueError::InvalidState)
                }
            },
            Some(ErasedArc::Lazy(ld)) => {
                if matches!(value.category, ValueCategory::Null) {
                    return Err(ValueError::InvalidState);
                }
                let mut out: Vec<u8> = Vec::new();
                out.push(category_byte(value.category));
                let mut name_bytes = ld.type_label.as_str().as_bytes_vec();
                out.push(name_bytes.len() as u8);
                out.append(&mut name_bytes);
                let mut payload = vstd::slice::slice_to_vec(ld.payload_slice());
                out.append(&mut payload);
                proof {
                    assert(out@ =~= wire_bytes(
                        value.category,
                        value.lazy_data().type_label@,
                        value.lazy_data().payload(),
                    ));
                }
                Ok(Arc::new(out))
            },
            Some(ErasedArc::Eager(a)) => {
                if matches!(value.category, ValueCategory::Null) {
                    let mut out: Vec<u8> = Vec::new();
                    out.push(5);
                    proof {
                        assert(out@ =~= seq![5u8]);
                    }
                    return Ok(Arc::new(out));
                }
                let v = &**a;
                let cname = v.type_label();
                let mut name_bytes = cname.as_str().as_bytes_vec();
                if name_bytes.len() > 255 {
                    return Err(ValueError::TypeNameTooLong);
                }
                let payload: Vec<u8> = if matches!(value.category, ValueCategory::Bytes) {
                    match v {
                        ConcreteValue::Raw(raw) => crate::value::clone_byte_vec(raw),
                        _ => {
                            return Err(ValueError::TypeMismatch);
                        },
                    }
                } else {
                    match self.serialize(v, cname.as_str()) {
                        Ok(p) => p,
                        Err(e) => {
                            return Err(e);
                        },
                    }
                };
                let mut out: Vec<u8> = Vec::new();
                out.push(category_byte(value.category));
                out.push(name_bytes.len() as u8);
                out.append(&mut name_bytes);
                let mut payload = payload;
                out.append(&mut payload);
                proof {
                    if matches!(value.category, ValueCategory::Bytes) {
                        assert(out@ =~= wire_bytes(
                            value.category,
                            value_name_spec(&value.eager_value()),
                            payload_of(&value.eager_value()),
                        ));
                        assert(payload_of(&value.eager_value()) == value.eager_value()->Raw_0@);
                    } else {
                        assert(out@ =~= wire_bytes(
                            value.category,
                            value_name_spec(&value.eager_value()),
                            payload_of(&value.eager_value()),
                        ));
                    }
                }
                Ok(Arc::new(out))
            },
        }
    }

    /// The single entry point from raw wire bytes to a value.
    ///
    /// Malformed input is rejected before any value is constructed.
    /// A null header yields the null value at once. Any other
    /// category requires a complete header naming a type with a
    /// registered deserializer; the payload is then deferred: the
    /// returned value is lazy and references the original buffer,
    /// with the category from the header preserved.
    pub fn deserialize_value(&self, bytes_arc: Arc<Vec<u8>>) -> (r: Result<
        ArcValueType,
        ValueError,
    >)
        requires
            self.wf(),
        ensures
            bytes_arc@.len() == 0 ==> (r matches Err(e) && e == ValueError::EmptyBuffer),
            bytes_arc@.len() > 0 && category_of_byte_spec(bytes_arc@[0]) is None ==> (
            r matches Err(e) && e == ValueError::InvalidCategory),
            bytes_arc@.len() > 0 && bytes_arc@[0] == 5 ==> (r matches Ok(v) && v.category
                == ValueCategory::Null && v.value is None),
            bytes_arc@.len() > 0 && category_of_byte_spec(bytes_arc@[0]) is Some && bytes_arc@[0]
                != 5 ==> {
                let b = bytes_arc@;
                let nlen = b[1] as int;
                &&& (b.len() < 2 ==> (r matches Err(e) && e == ValueError::TruncatedHeader))
                &&& (b.len() >= 2 && b.len() < 2 + nlen ==> (r matches Err(e) && e
                    == ValueError::TruncatedHeader))
                &&& (b.len() >= 2 && b.len() >= 2 + nlen && !valid_utf8(b.subrange(2, 2 + nlen))
                    ==> (r matches Err(e) && e == ValueError::InvalidTypeName))
                &&& (b.len() >= 2 && b.len() >= 2 + nlen && valid_utf8(b.subrange(2, 2 + nlen))
                    && !self.d_has(decode_utf8(b.subrange(2, 2 + nlen))) ==> (r matches Err(e)
                    && e == ValueError::UnknownType))
                &&& (b.len() >= 2 && b.len() >= 2 + nlen && valid_utf8(b.subrange(2, 2 + nlen))
                    && self.d_has(decode_utf8(b.subrange(2, 2 + nlen))) ==> (r matches Ok(v) && {
                    &&& v.wf()
                    &&& Some(v.category) == category_of_byte_spec(b[0])
                    &&& v.is_lazy()
                    &&& v.lazy_data().type_label@ == decode_utf8(b.subrange(2, 2 + nlen))
                    &&& v.lazy_data().original_buffer == bytes_arc
                    &&& v.lazy_data().start_offset == 2 + nlen
                    &&& v.lazy_data().end_offset == b.len()
                }))
            },
    {
        let n = (&*bytes_arc).len();
        if n == 0 {
            return Err(ValueError::EmptyBuffer);
        }
        let b0 = (&*bytes_arc)[0];
        let category = match category_of_byte(b0) {
            Some(c) => c,
            None => {
                return Err(ValueError::InvalidCategory);
            },
        };
        if matches!(category, ValueCategory::Null) {
            return Ok(ArcValueType::null());
        }
        if n < 2 {
            return Err(ValueError::TruncatedHeader);
        }
        let nlen = (&*bytes_arc)[1] as usize;
        if n - 2 < nlen {
            return Err(ValueError::TruncatedHeader);
        }
        let name_vec = vstd::slice::slice_to_vec(
            slice_subrange((&*bytes_arc).as_slice(), 2, 2 + nlen),
        );
        let type_label = match string_from_utf8(name_vec) {
            Some(s) => s,
            None => {
                return Err(ValueError::InvalidTypeName);
            },
        };
        let known = match lookup(&self.deserializers, type_label.as_str()) {
            Some(_) => true,
            None => false,
        };
        if !known {
            return Err(ValueError::UnknownType);
        }
        proof {
            vstd::utf8::decode_utf8_encode_utf8(bytes_arc@.subrange(2, 2 + nlen as int));
        }
        let lazy = LazyDataWithOffset {
            type_label,
            original_buffer: bytes_arc,
            start_offset: 2 + nlen,
            end_offset: n,
        };
        Ok(ArcValueType { category, value: Some(ErasedArc::Lazy(lazy)) })
    }
}

/// Law: the wire header inverts itself. Writing a category, a
/// length-prefixed type name and a payload, then reading them back
/// as the decoder does, recovers exactly the category, the name and
/// the payload. Together with the contracts of serialize_value,
/// deserialize_value and the typed accessors, this gives the
/// round trip: a serialized eager value deserializes to a lazy value
/// whose declared name and payload are the original's, and the
/// accessor for the original kind hydrates it to an equal value.
pub proof fn lemma_wire_header_roundtrip(c: ValueCategory, name: Seq<char>, p: Seq<u8>)
    requires
        c != ValueCategory::Null,
        encode_utf8(name).len() <= 255,
    ensures
        ({
            let w = wire_bytes(c, name, p);
            &&& w.len() == 2 + encode_utf8(name).len() + p.len()
            &&& category_of_byte_spec(w[0]) == Some(c)
            &&& w[0] != 5
            &&& w[1] == encode_utf8(name).len()
            &&& 2 + (w[1] as int) <= w.len()
            &&& w.subrange(2, 2 + (w[1] as int)) == encode_utf8(name)
            &&& valid_utf8(w.subrange(2, 2 + (w[1] as int)))
            &&& decode_utf8(w.subrange(2, 2 + (w[1] as int))) == name
            &&& crate::names::names_compatible(name, decode_utf8(w.subrange(2, 2 + (w[1] as int))))
            &&& w.subrange(2 + (w[1] as int), w.len() as int) == p
        }),
{
    let w = wire_bytes(c, name, p);
    let e = encode_utf8(name);
    assert(w.subrange(2, 2 + e.len() as int) =~= e);
    assert(w.subrange(2 + e.len() as int, w.len() as int) =~= p);
    vstd::utf8::encode_utf8_valid_utf8(name);
    vstd::utf8::encode_utf8_decode_utf8(name);
    crate::names::lemma_names_compatible_reflexive(name);
}

/// Law: a lazy value decoded from the wire re-encodes byte for byte
/// to the original input, without ever being hydrated. The header
/// fields and the payload slice a lazy value carries, written back
/// in order, reproduce the buffer they were read from.
pub proof fn lemma_lazy_reencode(b: Seq<u8>)
    requires
        b.len() >= 2,
        category_of_byte_spec(b[0]) is Some,
        b[0] != 5,
        2 + (b[1] as int) <= b.len(),
        valid_utf8(b.subrange(2, 2 + (b[1] as int))),
    ensures
        wire_bytes(
            category_of_byte_spec(b[0])->Some_0,
            decode_utf8(b.subrange(2, 2 + (b[1] as int))),
            b.subrange(2 + (b[1] as int), b.len() as int),
        ) == b,
{
    let nb = b.subrange(2, 2 + (b[1] as int));
    vstd::utf8::decode_utf8_encode_utf8(nb);
    let c = category_of_byte_spec(b[0])->Some_0;
    assert(category_byte_spec(c) == b[0]);
    assert(wire_bytes(c, decode_utf8(nb), b.subrange(2 + (b[1] as int), b.len() as int)) =~= b);
}

} // verus!
