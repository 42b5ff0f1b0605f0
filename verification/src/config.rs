use std::collections::{BTreeMap, HashMap};
use vstd::prelude::*;
use crate::camera_config::CameraConfigError;

verus! {

/// A source of configuration values, keys and tables.
pub trait ConfigReader {
    fn get_values<T>() -> Result<Vec<T>, CameraConfigError>;

    fn get_keys<T>() -> Result<Vec<T>, CameraConfigError>;

    fn get_key_values<T>() -> Result<HashMap<T, T>, CameraConfigError>;

    fn get_tree<K, T>() -> Result<BTreeMap<K, T>, CameraConfigError>;
}

}
