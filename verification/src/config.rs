use vstd::prelude::*;

use crate::external::lower_of;

verus! {

/// What can be wrong with the application config before any window exists.
/// All of these are fatal at startup.
#[derive(Clone, Copy, PartialEq, Eq, Structural, Debug)]
pub enum ConfigError {
    MissingProductName,
}

/// The identifier under which this application's state is stored: the
/// configured product name, lower-cased. A config without a product name
/// cannot start.
pub fn resolve_app_name(product_name: Option<String>) -> (r: Result<String, ConfigError>)
    ensures
        match product_name {
            Option::None => r matches Err(e) && e == ConfigError::MissingProductName,
            Option::Some(p) => r matches Ok(name) && name@ == lower_of(p@),
        },
{
    match product_name {
        None => Err(ConfigError::MissingProductName),
        Some(p) => Ok(crate::external::to_lowercase(p.as_str())),
    }
}

} // verus!
