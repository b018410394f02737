//! An entity registry: values and categories of values, addressed by cheap
//! handles and by validated, interned `namespace:path` identifiers.

mod err;
mod maps;
pub mod nsid;
pub mod registry;

pub use err::{ErrAlreadyRegistered, ErrCategoryAlreadyRegistered, InvalidNamespace, InvalidPath, NSIDParseError};
pub use nsid::{Interner, NamespacedID};
pub use registry::{CategoryHandle, Registry, RegistryHandle};
