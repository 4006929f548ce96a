//! Reading and writing 3MF packages: the parts of a package, the builder
//! of models, and queries over models and packages.

pub mod builder;
pub mod content_types;
pub mod error;
pub mod namespaces;
pub mod package;
pub mod path_map;
pub mod query;
pub mod reading;
pub mod thumbnail;
pub mod unpacked;
pub mod relationship;
pub mod utils;

pub use namespaces::{ModelNamespaces, XmlNamespace};
pub use package::ThreemfPackage;
pub use reading::CachePolicy;
pub use unpacked::ThreemfUnpacked;
pub use utils::parse_xmlns_attributes;
