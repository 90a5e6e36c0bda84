use vstd::prelude::*;

verus! {

/// The settings a configuration file may give; each one is optional and, where
/// given, takes the place of the built-in default.
#[derive(Debug, Clone, Default)]
pub struct ConfigFile {
    pub radius: Option<String>,
    pub padding_x: Option<String>,
    pub padding_y: Option<String>,
    pub blur_x: Option<String>,
    pub blur_y: Option<String>,
    pub shadow_color: Option<String>,
    pub offset_x: Option<String>,
    pub offset_y: Option<String>,
    pub input: Option<String>,
    pub output: Option<String>,
}

} // verus!
