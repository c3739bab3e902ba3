//! The resource model: a typed, identifiable object from the remote cluster,
//! the descriptor of its kind, and the composite key that indexes it.

use vstd::prelude::*;

verus! {

/// Describes a resource kind: the API group it belongs to and the kind name.
///
/// Two kinds sharing a schema are told apart by this descriptor, so it is
/// part of every cache key.
#[derive(Debug, PartialEq, Eq)]
pub struct TypeDescriptor {
    pub api_group: String,
    pub kind: String,
}

/// The mathematical value of a [`TypeDescriptor`]: both fields as character
/// sequences.
#[verifier::ext_equal]
pub struct TypeDescriptorView {
    pub api_group: Seq<char>,
    pub kind: Seq<char>,
}

impl View for TypeDescriptor {
    type V = TypeDescriptorView;

    open spec fn view(&self) -> TypeDescriptorView {
        TypeDescriptorView { api_group: self.api_group@, kind: self.kind@ }
    }
}

impl Clone for TypeDescriptor {
    fn clone(&self) -> (r: Self)
        ensures
            r == *self,
    {
        TypeDescriptor { api_group: self.api_group.clone(), kind: self.kind.clone() }
    }
}

impl Default for TypeDescriptor {
    /// The default descriptor: empty group and kind, for resource kinds that
    /// need no disambiguation.
    fn default() -> (r: Self)
        ensures
            r@.api_group == Seq::<char>::empty(),
            r@.kind == Seq::<char>::empty(),
    {
        TypeDescriptor { api_group: String::new(), kind: String::new() }
    }
}

impl TypeDescriptor {
    /// Exact equality of the two descriptors.
    pub fn equals(&self, other: &TypeDescriptor) -> (r: bool)
        ensures
            r == (self@ == other@),
    {
        let r = self.api_group == other.api_group && self.kind == other.kind;
        proof {
            if self@.api_group == other@.api_group && self@.kind == other@.kind {
                assert(self@ =~= other@);
            }
        }
        r
    }
}

/// A resource body as observed from the cluster: its identity (name and
/// optional namespace) together with the payload the cache mirrors.
///
/// A resource with no namespace is cluster-scoped; one with a namespace is
/// namespaced.
#[derive(Debug, PartialEq, Eq)]
pub struct Object {
    pub name: String,
    pub namespace: Option<String>,
    pub generation: Option<i64>,
    pub data: String,
}

/// The mathematical value of an [`Object`].
#[verifier::ext_equal]
pub struct ObjectView {
    pub name: Seq<char>,
    pub namespace: Option<Seq<char>>,
    pub generation: Option<i64>,
    pub data: Seq<char>,
}

/// The view of an optional string: `None` stays `None`, `Some` is viewed.
pub open spec fn opt_string_view(s: Option<String>) -> Option<Seq<char>> {
    match s {
        Some(inner) => Some(inner@),
        None => None,
    }
}

/// The view of an optional object: `None` stays `None`, `Some` is viewed.
pub open spec fn opt_object_view(o: Option<Object>) -> Option<ObjectView> {
    match o {
        Some(inner) => Some(inner@),
        None => None,
    }
}

impl View for Object {
    type V = ObjectView;

    open spec fn view(&self) -> ObjectView {
        ObjectView {
            name: self.name@,
            namespace: opt_string_view(self.namespace),
            generation: self.generation,
            data: self.data@,
        }
    }
}

/// Clones an optional string; the result is the same optional value.
fn clone_opt_string(s: &Option<String>) -> (r: Option<String>)
    ensures
        r == *s,
{
    match s {
        Some(inner) => Some(inner.clone()),
        None => None,
    }
}

/// Exact equality of two optional strings, as optional character sequences.
fn opt_string_equals(a: &Option<String>, b: &Option<String>) -> (r: bool)
    ensures
        r == (opt_string_view(*a) == opt_string_view(*b)),
{
    match a {
        Some(x) => match b {
            Some(y) => *x == *y,
            None => false,
        },
        None => match b {
            Some(_) => false,
            None => true,
        },
    }
}

impl Clone for Object {
    fn clone(&self) -> (r: Self)
        ensures
            r == *self,
    {
        let r = Object {
            name: self.name.clone(),
            namespace: clone_opt_string(&self.namespace),
            generation: self.generation,
            data: self.data.clone(),
        };
        proof {
            assert(r =~= *self);
        }
        r
    }
}

/// The composite key of a cached entry: the kind descriptor, the optional
/// namespace and the name. Two keys are equal exactly when all three parts
/// are, including namespace presence or absence.
#[derive(Debug, PartialEq, Eq)]
pub struct ObjectRef {
    pub dyntype: TypeDescriptor,
    pub name: String,
    pub namespace: Option<String>,
}

/// The mathematical value of an [`ObjectRef`].
#[verifier::ext_equal]
pub struct ObjectRefView {
    pub dyntype: TypeDescriptorView,
    pub name: Seq<char>,
    pub namespace: Option<Seq<char>>,
}

impl View for ObjectRef {
    type V = ObjectRefView;

    open spec fn view(&self) -> ObjectRefView {
        ObjectRefView {
            dyntype: self.dyntype@,
            name: self.name@,
            namespace: opt_string_view(self.namespace),
        }
    }
}

impl ObjectRefView {
    /// The same key with the namespace cleared, as used by the cluster-scoped
    /// lookup fallback.
    pub open spec fn cluster_scoped(self) -> ObjectRefView {
        ObjectRefView { namespace: None, ..self }
    }
}

/// The key under which an object with value `o` is cached, given the kind
/// descriptor `dt` of its writer.
pub open spec fn key_of(o: ObjectView, dt: TypeDescriptorView) -> ObjectRefView {
    ObjectRefView { dyntype: dt, name: o.name, namespace: o.namespace }
}

impl Clone for ObjectRef {
    fn clone(&self) -> (r: Self)
        ensures
            r == *self,
    {
        let r = ObjectRef {
            dyntype: self.dyntype.clone(),
            name: self.name.clone(),
            namespace: clone_opt_string(&self.namespace),
        };
        proof {
            assert(r =~= *self);
        }
        r
    }
}

impl ObjectRef {
    /// Derives the cache key of `obj` under the kind descriptor `dyntype`.
    pub fn from_obj_with(obj: &Object, dyntype: TypeDescriptor) -> (r: ObjectRef)
        ensures
            r@ == key_of(obj@, dyntype@),
    {
        let r = ObjectRef {
            dyntype,
            name: obj.name.clone(),
            namespace: clone_opt_string(&obj.namespace),
        };
        proof {
            assert(r@ =~= key_of(obj@, r.dyntype@));
        }
        r
    }

    /// Exact equality of the two keys: descriptor, name and namespace all
    /// match, including namespace presence or absence.
    pub fn equals(&self, other: &ObjectRef) -> (r: bool)
        ensures
            r == (self@ == other@),
    {
        let r = self.dyntype.equals(&other.dyntype) && self.name == other.name
            && opt_string_equals(&self.namespace, &other.namespace);
        proof {
            if self@.dyntype == other@.dyntype && self@.name == other@.name && self@.namespace
                == other@.namespace {
                assert(self@ =~= other@);
            }
        }
        r
    }

    /// The same key with the namespace cleared.
    pub fn to_cluster_scoped(&self) -> (r: ObjectRef)
        ensures
            r@ == self@.cluster_scoped(),
    {
        let r = ObjectRef {
            dyntype: self.dyntype.clone(),
            name: self.name.clone(),
            namespace: None,
        };
        proof {
            assert(r@ =~= self@.cluster_scoped());
        }
        r
    }
}

} // verus!
