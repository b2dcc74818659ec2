//! The venue component (a calendar extension for locations).

use crate::components::inner_wf;
use crate::components::plain_prop;
use crate::components::prop_lookup;
use crate::components::InnerComponent;
use crate::components::InnerModel;
use vstd::prelude::*;

verus! {

/// A venue: a component rendered under the `VVENUE` kind.
#[derive(Debug, PartialEq, Eq)]
pub struct Venue {
    /// The venue's content.
    pub inner: InnerComponent,
}

impl View for Venue {
    type V = InnerModel;

    open spec fn view(&self) -> InnerModel {
        self.inner@
    }
}

impl Venue {
    /// Creates a new venue.
    pub fn new() -> (r: Venue)
        ensures
            r@.properties.len() == 0,
            r@.multi_properties.len() == 0,
            r@.components.len() == 0,
            inner_wf(r@),
    {
        Venue { inner: InnerComponent::new() }
    }

    /// End of the builder pattern: takes the finished venue.
    pub fn done(&mut self) -> (r: Venue)
        ensures
            r == *old(self),
            final(self)@.properties.len() == 0,
            final(self)@.multi_properties.len() == 0,
            final(self)@.components.len() == 0,
            inner_wf(final(self)@),
    {
        Venue { inner: self.inner.done() }
    }

    /// Sets the street address.
    pub fn street_address(self, address: &str) -> (r: Venue)
        requires
            inner_wf(self@),
        ensures
            inner_wf(r@),
            prop_lookup(r@.properties, "STREET-ADDRESS"@) == Some(
                plain_prop("STREET-ADDRESS"@, crate::escaping::escape_newlines_spec(address@)),
            ),
            forall|k: Seq<char>|
                k != "STREET-ADDRESS"@ ==> prop_lookup(r@.properties, k) == prop_lookup(
                    self@.properties,
                    k,
                ),
            r@.multi_properties == self@.multi_properties,
            r@.components == self@.components,
    {
        let mut inner = self.inner;
        inner.add_property("STREET-ADDRESS", address);
        Venue { inner }
    }

    /// Reads the street address.
    pub fn get_street_address(&self) -> (r: Option<&str>)
        ensures
            match r {
                Some(v) => prop_lookup(self@.properties, "STREET-ADDRESS"@) matches Some(p) && p.val
                    == v@,
                None => prop_lookup(self@.properties, "STREET-ADDRESS"@) is None,
            },
    {
        self.inner.property_value("STREET-ADDRESS")
    }

    /// Sets the extended address.
    pub fn extended_address(self, address: &str) -> (r: Venue)
        requires
            inner_wf(self@),
        ensures
            inner_wf(r@),
            prop_lookup(r@.properties, "EXTENDED-ADDRESS"@) == Some(
                plain_prop("EXTENDED-ADDRESS"@, crate::escaping::escape_newlines_spec(address@)),
            ),
            forall|k: Seq<char>|
                k != "EXTENDED-ADDRESS"@ ==> prop_lookup(r@.properties, k) == prop_lookup(
                    self@.properties,
                    k,
                ),
            r@.multi_properties == self@.multi_properties,
            r@.components == self@.components,
    {
        let mut inner = self.inner;
        inner.add_property("EXTENDED-ADDRESS", address);
        Venue { inner }
    }

    /// Reads the extended address.
    pub fn get_extended_address(&self) -> (r: Option<&str>)
        ensures
            match r {
                Some(v) => prop_lookup(self@.properties, "EXTENDED-ADDRESS"@) matches Some(p)
                    && p.val == v@,
                None => prop_lookup(self@.properties, "EXTENDED-ADDRESS"@) is None,
            },
    {
        self.inner.property_value("EXTENDED-ADDRESS")
    }

    /// Sets the locality (city).
    pub fn locality(self, locality: &str) -> (r: Venue)
        requires
            inner_wf(self@),
        ensures
            inner_wf(r@),
            prop_lookup(r@.properties, "LOCALITY"@) == Some(plain_prop("LOCALITY"@, crate::escaping::escape_newlines_spec(locality@))),
            forall|k: Seq<char>|
                k != "LOCALITY"@ ==> prop_lookup(r@.properties, k) == prop_lookup(
                    self@.properties,
                    k,
                ),
            r@.multi_properties == self@.multi_properties,
            r@.components == self@.components,
    {
        let mut inner = self.inner;
        inner.add_property("LOCALITY", locality);
        Venue { inner }
    }

    /// Reads the locality.
    pub fn get_locality(&self) -> (r: Option<&str>)
        ensures
            match r {
                Some(v) => prop_lookup(self@.properties, "LOCALITY"@) matches Some(p) && p.val
                    == v@,
                None => prop_lookup(self@.properties, "LOCALITY"@) is None,
            },
    {
        self.inner.property_value("LOCALITY")
    }

    /// Sets the region (state, province).
    pub fn region(self, region: &str) -> (r: Venue)
        requires
            inner_wf(self@),
        ensures
            inner_wf(r@),
            prop_lookup(r@.properties, "REGION"@) == Some(plain_prop("REGION"@, crate::escaping::escape_newlines_spec(region@))),
            forall|k: Seq<char>|
                k != "REGION"@ ==> prop_lookup(r@.properties, k) == prop_lookup(
                    self@.properties,
                    k,
                ),
            r@.multi_properties == self@.multi_properties,
            r@.components == self@.components,
    {
        let mut inner = self.inner;
        inner.add_property("REGION", region);
        Venue { inner }
    }

    /// Reads the region.
    pub fn get_region(&self) -> (r: Option<&str>)
        ensures
            match r {
                Some(v) => prop_lookup(self@.properties, "REGION"@) matches Some(p) && p.val == v@,
                None => prop_lookup(self@.properties, "REGION"@) is None,
            },
    {
        self.inner.property_value("REGION")
    }

    /// Sets the country.
    pub fn country(self, country: &str) -> (r: Venue)
        requires
            inner_wf(self@),
        ensures
            inner_wf(r@),
            prop_lookup(r@.properties, "COUNTRY"@) == Some(plain_prop("COUNTRY"@, crate::escaping::escape_newlines_spec(country@))),
            forall|k: Seq<char>|
                k != "COUNTRY"@ ==> prop_lookup(r@.properties, k) == prop_lookup(
                    self@.properties,
                    k,
                ),
            r@.multi_properties == self@.multi_properties,
            r@.components == self@.components,
    {
        let mut inner = self.inner;
        inner.add_property("COUNTRY", country);
        Venue { inner }
    }

    /// Reads the country.
    pub fn get_country(&self) -> (r: Option<&str>)
        ensures
            match r {
                Some(v) => prop_lookup(self@.properties, "COUNTRY"@) matches Some(p) && p.val == v@,
                None => prop_lookup(self@.properties, "COUNTRY"@) is None,
            },
    {
        self.inner.property_value("COUNTRY")
    }

    /// Sets the postal code.
    pub fn postal_code(self, postal_code: &str) -> (r: Venue)
        requires
            inner_wf(self@),
        ensures
            inner_wf(r@),
            prop_lookup(r@.properties, "POSTAL-CODE"@) == Some(
                plain_prop("POSTAL-CODE"@, crate::escaping::escape_newlines_spec(postal_code@)),
            ),
            forall|k: Seq<char>|
                k != "POSTAL-CODE"@ ==> prop_lookup(r@.properties, k) == prop_lookup(
                    self@.properties,
                    k,
                ),
            r@.multi_properties == self@.multi_properties,
            r@.components == self@.components,
    {
        let mut inner = self.inner;
        inner.add_property("POSTAL-CODE", postal_code);
        Venue { inner }
    }

    /// Reads the postal code.
    pub fn get_postal_code(&self) -> (r: Option<&str>)
        ensures
            match r {
                Some(v) => prop_lookup(self@.properties, "POSTAL-CODE"@) matches Some(p) && p.val
                    == v@,
                None => prop_lookup(self@.properties, "POSTAL-CODE"@) is None,
            },
    {
        self.inner.property_value("POSTAL-CODE")
    }
}

} // verus!
