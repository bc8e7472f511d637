//! Identifiers of the objects that the control plane, the relay and the
//! agent exchange. Each is a string, compared by its characters.
use vstd::prelude::*;
use crate::text::owned;

verus! {

/// A tunnel session.
#[derive(Clone, Debug, PartialEq, Eq, Hash)]
pub struct SessionId(pub String);

impl View for SessionId {
    type V = Seq<char>;

    open spec fn view(&self) -> Seq<char> {
        self.0@
    }
}

impl SessionId {
    pub fn new(value: &str) -> (r: Self)
        ensures
            r@ == value@,
    {
        SessionId(owned(value))
    }

    pub fn from_string(value: String) -> (r: Self)
        ensures
            r@ == value@,
    {
        SessionId(value)
    }

    pub fn as_str(&self) -> (r: &str)
        ensures
            r@ == self@,
    {
        self.0.as_str()
    }

    /// Whether two identifiers are the same.
    pub fn same(&self, other: &Self) -> (r: bool)
        ensures
            r == (self@ == other@),
    {
        self.0 == other.0
    }

    /// An equal identifier.
    pub fn copied(&self) -> (r: Self)
        ensures
            r == *self,
    {
        SessionId(self.0.clone())
    }
}

/// A Control user.
#[derive(Clone, Debug, PartialEq, Eq, Hash)]
pub struct UserId(pub String);

impl View for UserId {
    type V = Seq<char>;

    open spec fn view(&self) -> Seq<char> {
        self.0@
    }
}

impl UserId {
    pub fn new(value: &str) -> (r: Self)
        ensures
            r@ == value@,
    {
        UserId(owned(value))
    }

    pub fn from_string(value: String) -> (r: Self)
        ensures
            r@ == value@,
    {
        UserId(value)
    }

    pub fn as_str(&self) -> (r: &str)
        ensures
            r@ == self@,
    {
        self.0.as_str()
    }

    /// Whether two identifiers are the same.
    pub fn same(&self, other: &Self) -> (r: bool)
        ensures
            r == (self@ == other@),
    {
        self.0 == other.0
    }

    /// An equal identifier.
    pub fn copied(&self) -> (r: Self)
        ensures
            r == *self,
    {
        UserId(self.0.clone())
    }
}

/// A mobile client.
#[derive(Clone, Debug, PartialEq, Eq, Hash)]
pub struct ClientId(pub String);

impl View for ClientId {
    type V = Seq<char>;

    open spec fn view(&self) -> Seq<char> {
        self.0@
    }
}

impl ClientId {
    pub fn new(value: &str) -> (r: Self)
        ensures
            r@ == value@,
    {
        ClientId(owned(value))
    }

    pub fn from_string(value: String) -> (r: Self)
        ensures
            r@ == value@,
    {
        ClientId(value)
    }

    pub fn as_str(&self) -> (r: &str)
        ensures
            r@ == self@,
    {
        self.0.as_str()
    }

    /// Whether two identifiers are the same.
    pub fn same(&self, other: &Self) -> (r: bool)
        ensures
            r == (self@ == other@),
    {
        self.0 == other.0
    }

    /// An equal identifier.
    pub fn copied(&self) -> (r: Self)
        ensures
            r == *self,
    {
        ClientId(self.0.clone())
    }
}

/// A controlled device (an agent).
#[derive(Clone, Debug, PartialEq, Eq, Hash)]
pub struct DeviceId(pub String);

impl View for DeviceId {
    type V = Seq<char>;

    open spec fn view(&self) -> Seq<char> {
        self.0@
    }
}

impl DeviceId {
    pub fn new(value: &str) -> (r: Self)
        ensures
            r@ == value@,
    {
        DeviceId(owned(value))
    }

    pub fn from_string(value: String) -> (r: Self)
        ensures
            r@ == value@,
    {
        DeviceId(value)
    }

    pub fn as_str(&self) -> (r: &str)
        ensures
            r@ == self@,
    {
        self.0.as_str()
    }

    /// Whether two identifiers are the same.
    pub fn same(&self, other: &Self) -> (r: bool)
        ensures
            r == (self@ == other@),
    {
        self.0 == other.0
    }

    /// An equal identifier.
    pub fn copied(&self) -> (r: Self)
        ensures
            r == *self,
    {
        DeviceId(self.0.clone())
    }
}

/// A service that a device exposes.
#[derive(Clone, Debug, PartialEq, Eq, Hash)]
pub struct ServiceId(pub String);

impl View for ServiceId {
    type V = Seq<char>;

    open spec fn view(&self) -> Seq<char> {
        self.0@
    }
}

impl ServiceId {
    pub fn new(value: &str) -> (r: Self)
        ensures
            r@ == value@,
    {
        ServiceId(owned(value))
    }

    pub fn from_string(value: String) -> (r: Self)
        ensures
            r@ == value@,
    {
        ServiceId(value)
    }

    pub fn as_str(&self) -> (r: &str)
        ensures
            r@ == self@,
    {
        self.0.as_str()
    }

    /// Whether two identifiers are the same.
    pub fn same(&self, other: &Self) -> (r: bool)
        ensures
            r == (self@ == other@),
    {
        self.0 == other.0
    }

    /// An equal identifier.
    pub fn copied(&self) -> (r: Self)
        ensures
            r == *self,
    {
        ServiceId(self.0.clone())
    }
}

} // verus!
