use crate::string::{NBString, NCString};
use crate::versionable::{version, Versionable};
use std::collections::HashSet;
use vstd::prelude::*;

verus! {

/// The header versions that are defined. The version of an
/// [`EncryptionHeader`] and those of the two headers in it must agree.
pub const V0: u16 = 0;

/// The version that new headers are stamped with.
pub const CURRENT_VERSION: u16 = V0;

/// Why an envelope could not be put together or taken apart.
#[derive(Clone, Copy, Debug, PartialEq, Eq, Structural)]
pub enum HeaderError {
    /// The version tags of the parts disagree.
    VersionMismatch,
    /// The version tag is none that this build defines.
    UnknownVersion,
}

/// What accompanies an encrypted data field: how the data was encrypted, how
/// its key was encrypted, and that key.
#[derive(Debug)]
pub struct EncryptionHeader {
    pub version: u16,
    pub data_header: DataHeader,
    pub key_header: KeyHeader,
    /// Data-encryption key, encrypted using user-KEK
    pub key: Box<NBString>,
}

/// Metadata for encrypted data fields
/// (delivered encrypted with the same KEK as the data key)
#[derive(Debug)]
pub struct DataHeader {
    pub version: u16,
    /// Whether the data is empty/null.
    /// This field enables opaque nullability
    pub empty: bool,
    /// A set of fields in the data that are empty/null
    pub empty_fields: HashSet<Box<NCString>>,
    /// Data encryption algorithm ID
    pub algorithm: Box<NCString>,
}

/// Metadata for KEK-encrypted data-encryption keys
/// (delivered as plaintext)
#[derive(Debug)]
pub struct KeyHeader {
    pub version: u16,
    /// Key encryption algorithm ID
    pub algorithm: Box<NCString>,
}

impl Versionable for EncryptionHeader {
    const CURRENT_VERSION: u16 = CURRENT_VERSION;

    open spec fn tag(&self) -> u16 {
        self.version
    }

    fn leading_tag(&self) -> (v: u16) {
        self.version
    }
}

impl Versionable for DataHeader {
    const CURRENT_VERSION: u16 = CURRENT_VERSION;

    open spec fn tag(&self) -> u16 {
        self.version
    }

    fn leading_tag(&self) -> (v: u16) {
        self.version
    }
}

impl Versionable for KeyHeader {
    const CURRENT_VERSION: u16 = CURRENT_VERSION;

    open spec fn tag(&self) -> u16 {
        self.version
    }

    fn leading_tag(&self) -> (v: u16) {
        self.version
    }
}

/// Whether this build defines the version.
pub open spec fn known_version(v: u16) -> bool {
    v == V0
}

/// Tells a version tag that this build defines from one that it does not.
pub fn check_version(v: u16) -> (r: Result<(), HeaderError>)
    ensures
        known_version(v) ==> r is Ok,
        !known_version(v) ==> r == Err::<(), HeaderError>(HeaderError::UnknownVersion),
{
    if v == V0 {
        Ok(())
    } else {
        Err(HeaderError::UnknownVersion)
    }
}

impl DataHeader {
    /// A header of the current version.
    pub fn new(empty: bool, empty_fields: HashSet<Box<NCString>>, algorithm: Box<NCString>) -> (r:
        DataHeader)
        ensures
            r.tag() == Self::CURRENT_VERSION,
            r == (DataHeader { version: CURRENT_VERSION, empty, empty_fields, algorithm }),
    {
        DataHeader { version: Self::CURRENT_VERSION, empty, empty_fields, algorithm }
    }
}

impl KeyHeader {
    /// A header of the current version.
    pub fn new(algorithm: Box<NCString>) -> (r: KeyHeader)
        ensures
            r.tag() == Self::CURRENT_VERSION,
            r == (KeyHeader { version: CURRENT_VERSION, algorithm }),
    {
        KeyHeader { version: Self::CURRENT_VERSION, algorithm }
    }
}

impl EncryptionHeader {
    /// Whether the two headers carry the version of the envelope.
    pub open spec fn consistent(&self) -> bool {
        &&& self.data_header.version == self.version
        &&& self.key_header.version == self.version
    }

    /// What taking the envelope apart gives: its three parts, if its version
    /// is known and each header carries it.
    pub open spec fn parts(&self) -> Result<(DataHeader, KeyHeader, NBString), HeaderError> {
        if !known_version(self.version) {
            Err(HeaderError::UnknownVersion)
        } else if !self.consistent() {
            Err(HeaderError::VersionMismatch)
        } else {
            Ok((self.data_header, self.key_header, *self.key))
        }
    }

    /// Puts an envelope together from headers of one version, which becomes
    /// the envelope's own.
    pub fn compose(data_header: DataHeader, key_header: KeyHeader, wrapped_key: NBString) -> (r:
        Result<EncryptionHeader, HeaderError>)
        ensures
            data_header.version == key_header.version ==> (r matches Ok(h) && {
                &&& h.version == data_header.version
                &&& h.data_header == data_header
                &&& h.key_header == key_header
                &&& *h.key == wrapped_key
            }),
            data_header.version != key_header.version ==> r == Err::<
                EncryptionHeader,
                HeaderError,
            >(HeaderError::VersionMismatch),
    {
        if data_header.version != key_header.version {
            return Err(HeaderError::VersionMismatch);
        }
        Ok(
            EncryptionHeader {
                version: data_header.version,
                data_header,
                key_header,
                key: Box::new(wrapped_key),
            },
        )
    }

    /// Takes an envelope apart, after its version was found to be known and
    /// each header to carry it.
    pub fn decompose(self) -> (r: Result<(DataHeader, KeyHeader, NBString), HeaderError>)
        ensures
            r == self.parts(),
    {
        let tag = version(&self);
        match check_version(tag) {
            Ok(()) => {},
            Err(e) => {
                return Err(e);
            },
        }
        if version(&self.data_header) != tag || version(&self.key_header) != tag {
            return Err(HeaderError::VersionMismatch);
        }
        Ok((self.data_header, self.key_header, *self.key))
    }
}

/// Every type of the envelope declares the same current version.
pub proof fn lemma_declared_versions()
    ensures
        EncryptionHeader::CURRENT_VERSION == CURRENT_VERSION,
        DataHeader::CURRENT_VERSION == CURRENT_VERSION,
        KeyHeader::CURRENT_VERSION == CURRENT_VERSION,
{
}

/// An envelope put together from headers that carry their types' current
/// version carries the current version of its own type.
pub proof fn lemma_fresh_envelope_is_current(
    data_header: DataHeader,
    key_header: KeyHeader,
    wrapped_key: NBString,
    r: Result<EncryptionHeader, HeaderError>,
)
    requires
        data_header.tag() == DataHeader::CURRENT_VERSION,
        key_header.tag() == KeyHeader::CURRENT_VERSION,
        call_ensures(EncryptionHeader::compose, (data_header, key_header, wrapped_key), r),
    ensures
        r matches Ok(h) && h.tag() == EncryptionHeader::CURRENT_VERSION,
{
}

/// Taking apart what was put together, from headers of one known version,
/// gives the parts back.
pub proof fn lemma_compose_decompose(
    data_header: DataHeader,
    key_header: KeyHeader,
    wrapped_key: NBString,
    r: Result<EncryptionHeader, HeaderError>,
)
    requires
        data_header.version == key_header.version,
        known_version(data_header.version),
        call_ensures(EncryptionHeader::compose, (data_header, key_header, wrapped_key), r),
    ensures
        r matches Ok(h) && h.parts() == Ok::<(DataHeader, KeyHeader, NBString), HeaderError>(
            (data_header, key_header, wrapped_key),
        ),
{
}

} // verus!
