use vstd::prelude::*;

verus! {

/// Asymmetric encryption algorithms
#[allow(non_camel_case_types)]
#[derive(Clone, Copy, Debug, PartialEq, Eq, Structural)]
pub enum AsymmetricAlgo {
    RSA_3072,
    RSA_4096,
    X25519,
}

/// Symmetric encryption algorithms
#[allow(non_camel_case_types)]
#[derive(Clone, Copy, Debug, PartialEq, Eq, Structural)]
pub enum SymmetricAlgo {
    AES_GCM_256,
    CHACHA20_POLY1305,
}

impl AsymmetricAlgo {
    /// The identifier under which a header names the algorithm.
    pub open spec fn spec_name(&self) -> Seq<char> {
        match self {
            AsymmetricAlgo::RSA_3072 => "RSA_3072"@,
            AsymmetricAlgo::RSA_4096 => "RSA_4096"@,
            AsymmetricAlgo::X25519 => "X25519"@,
        }
    }

    /// The identifier under which a header names the algorithm.
    pub fn name(&self) -> (r: &'static str)
        ensures
            r@ == self.spec_name(),
    {
        match self {
            AsymmetricAlgo::RSA_3072 => "RSA_3072",
            AsymmetricAlgo::RSA_4096 => "RSA_4096",
            AsymmetricAlgo::X25519 => "X25519",
        }
    }
}

impl SymmetricAlgo {
    /// The identifier under which a header names the algorithm.
    pub open spec fn spec_name(&self) -> Seq<char> {
        match self {
            SymmetricAlgo::AES_GCM_256 => "AES_GCM_256"@,
            SymmetricAlgo::CHACHA20_POLY1305 => "CHACHA20_POLY1305"@,
        }
    }

    /// The identifier under which a header names the algorithm.
    pub fn name(&self) -> (r: &'static str)
        ensures
            r@ == self.spec_name(),
    {
        match self {
            SymmetricAlgo::AES_GCM_256 => "AES_GCM_256",
            SymmetricAlgo::CHACHA20_POLY1305 => "CHACHA20_POLY1305",
        }
    }
}

} // verus!
