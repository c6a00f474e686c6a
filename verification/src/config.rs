//! Renderer configuration derived from the graphics context version.

use vstd::prelude::*;

verus! {

/// Drawlist buffers are sized for this many objects.
pub const DEFAULT_MAX_SIZE: usize = 131072;

/// Bit pattern of the single-precision value one, the default head-mounted
/// display render scale.
pub const DEFAULT_HMD_SIZE_BITS: u32 = 0x3f80_0000;

/// Availability of an optional graphics feature.
#[derive(Clone, Copy, Debug, PartialEq, Eq, Structural)]
pub enum ConfigOption {
    Unsupported,
    Disabled,
    Enabled,
}

impl ConfigOption {
    /// True only for `Enabled`: an unsupported feature and a feature that is
    /// switched off are both unusable.
    pub fn enabled(&self) -> (r: bool)
        ensures
            r == (*self is Enabled),
    {
        match *self {
            ConfigOption::Enabled => true,
            _ => false,
        }
    }
}

/// Bindless textures need a context of version 4.4 or later.
pub open spec fn supports_bindless(major: usize, minor: usize) -> bool {
    major >= 5 || (major == 4 && minor >= 4)
}

pub struct Config {
    max_size: usize,
    bindless: ConfigOption,
    hmd_size: u32,
}

impl Config {
    pub closed spec fn spec_max_size(&self) -> usize {
        self.max_size
    }

    pub closed spec fn spec_bindless(&self) -> ConfigOption {
        self.bindless
    }

    pub closed spec fn spec_hmd_size(&self) -> u32 {
        self.hmd_size
    }

    /// Configuration for a context reporting `gl_version` as (major, minor).
    pub fn new(gl_version: (usize, usize)) -> (cfg: Config)
        ensures
            cfg.spec_max_size() == DEFAULT_MAX_SIZE,
            cfg.spec_hmd_size() == DEFAULT_HMD_SIZE_BITS,
            cfg.spec_bindless() == if supports_bindless(gl_version.0, gl_version.1) {
                ConfigOption::Enabled
            } else {
                ConfigOption::Unsupported
            },
    {
        let (major, minor) = gl_version;
        let bindless = if major >= 5 {
            ConfigOption::Enabled
        } else if major == 4 && minor >= 4 {
            ConfigOption::Enabled
        } else {
            ConfigOption::Unsupported
        };
        Config { max_size: DEFAULT_MAX_SIZE, bindless, hmd_size: DEFAULT_HMD_SIZE_BITS }
    }

    pub fn use_bindless(&self) -> (r: bool)
        ensures
            r == (self.spec_bindless() is Enabled),
    {
        self.bindless.enabled()
    }

    pub fn max_size(&self) -> (r: usize)
        ensures
            r == self.spec_max_size(),
    {
        self.max_size
    }

    /// The head-mounted display render scale as the bit pattern of a
    /// single-precision number.
    pub fn hmd_size(&self) -> (r: u32)
        ensures
            r == self.spec_hmd_size(),
    {
        self.hmd_size
    }
}

} // verus!
