//! Marker traits that only this crate can implement.

use vstd::prelude::*;

verus! {

/// Marks the wire types that this crate defines.
pub trait SealedType {

}

/// Marks the wire types that may tag a key.
pub trait SealedKeyType {

}

} // verus!
