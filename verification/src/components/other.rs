//! A component of any kind: a name and an inner content.

use crate::components::inner_wf;
use crate::components::other_model;
use crate::components::InnerComponent;
use crate::components::OtherModel;
use crate::properties::Property;
use vstd::prelude::*;

verus! {

/// A component under any kind name, used both for unknown kinds and for
/// the children of typed components.
#[derive(Debug, PartialEq, Eq)]
pub struct Other {
    /// The kind name, as written in `BEGIN`/`END`.
    pub name: String,
    /// The component's content.
    pub inner: InnerComponent,
}

impl View for Other {
    type V = OtherModel;

    open spec fn view(&self) -> OtherModel {
        other_model(*self)
    }
}

impl Other {
    /// A component of the given kind with the given content.
    pub fn from_parts(name: String, inner: InnerComponent) -> (r: Other)
        ensures
            r@.name == name@,
            r@.inner == inner@,
    {
        Other { name, inner }
    }

    /// The kind name.
    pub fn component_kind(&self) -> (r: String)
        ensures
            r@ == self@.name,
    {
        self.name.clone()
    }

    /// Stores a single-valued property (last write wins).
    pub fn append_property(&mut self, property: Property)
        requires
            inner_wf(old(self)@.inner),
            property.wf(),
        ensures
            inner_wf(final(self)@.inner),
            crate::components::prop_lookup(final(self)@.inner.properties, property@.key) == Some(
                property@,
            ),
            forall|k: Seq<char>|
                k != property@.key ==> crate::components::prop_lookup(
                    final(self)@.inner.properties,
                    k,
                ) == crate::components::prop_lookup(old(self)@.inner.properties, k),
            final(self)@.name == old(self)@.name,
            final(self)@.inner.multi_properties == old(self)@.inner.multi_properties,
            final(self)@.inner.components == old(self)@.inner.components,
    {
        self.inner.insert_property(property);
    }

    /// Appends a repeatable property.
    pub fn append_multi_property(&mut self, property: Property)
        requires
            inner_wf(old(self)@.inner),
            property.wf(),
        ensures
            inner_wf(final(self)@.inner),
            final(self)@.inner.multi_properties == old(self)@.inner.multi_properties.push(
                property@,
            ),
            final(self)@.name == old(self)@.name,
            final(self)@.inner.properties == old(self)@.inner.properties,
            final(self)@.inner.components == old(self)@.inner.components,
    {
        self.inner.insert_multi(property);
    }

    /// Appends a child component.
    pub fn append_component(&mut self, child: Other)
        requires
            inner_wf(old(self)@.inner),
            inner_wf(child@.inner),
        ensures
            inner_wf(final(self)@.inner),
            final(self)@.inner.components == old(self)@.inner.components.push(child@),
            final(self)@.name == old(self)@.name,
            final(self)@.inner.properties == old(self)@.inner.properties,
            final(self)@.inner.multi_properties == old(self)@.inner.multi_properties,
    {
        self.inner.push_component(child);
    }

    /// The raw value of the single-valued property named `key`.
    pub fn property_value(&self, key: &str) -> (r: Option<&str>)
        ensures
            match r {
                Some(v) => crate::components::prop_lookup(self@.inner.properties, key@) matches
                    Some(p) && p.val == v@,
                None => crate::components::prop_lookup(self@.inner.properties, key@) is None,
            },
    {
        self.inner.property_value(key)
    }
}

} // verus!
