//! The conversion configuration and its validation.
//!
//! Fractional parameters are fixed-point integers in thousandths: a `sigma`
//! of `2000` means a standard deviation of two pixels, a `threshold` of `5`
//! means five thousandths of full brightness.

use vstd::prelude::*;

verus! {

/// Configuration for the ASCII art conversion.
#[derive(Debug, Clone, Copy)]
pub struct AsciiConfig {
    /// Gaussian kernel radius in pixels; the kernel covers `2 * kernel_size + 1` taps.
    pub kernel_size: u32,
    /// Standard deviation of the first blur, in thousandths of a pixel.
    pub sigma: i32,
    /// Scale factor for the second blur's standard deviation, in thousandths.
    pub sigma_scale: i32,
    /// Multiplier of the second blur in the difference of Gaussians, in thousandths.
    pub tau: i32,
    /// Binary threshold on the difference of Gaussians, in thousandths of full brightness.
    pub threshold: i32,
    /// Minimum number of agreeing pixels before an 8x8 tile counts as an edge.
    pub edge_threshold: u32,
    /// Foreground (glyph ink) color in solid rendering, RGB.
    pub ascii_color: [u8; 3],
    /// Background color in solid rendering, RGB.
    pub bg_color: [u8; 3],
    /// Draw edge glyphs where a tile has a dominant direction.
    pub draw_edges: bool,
    /// Draw fill glyphs from tile brightness where no edge is drawn.
    pub draw_fill: bool,
    /// Invert brightness before choosing a fill glyph.
    pub invert_luminance: bool,
}

/// A rejected configuration field, carrying the offending value.
/// The accepted range of each field is stated by [`spec_config_valid`].
#[derive(Debug, Clone, Copy, PartialEq, Eq, Structural)]
pub enum ConfigError {
    /// `kernel_size` outside 1 ..= 10.
    KernelSize(u32),
    /// `sigma` outside 0 ..= 5000 thousandths.
    Sigma(i32),
    /// `sigma_scale` outside 0 ..= 5000 thousandths.
    SigmaScale(i32),
    /// `tau` outside 0 ..= 1100 thousandths.
    Tau(i32),
    /// `threshold` outside 1 ..= 100 thousandths.
    Threshold(i32),
    /// `edge_threshold` above 64.
    EdgeThreshold(u32),
}

/// Every validated field is inside its accepted range.
pub open spec fn spec_config_valid(c: AsciiConfig) -> bool {
    &&& 1 <= c.kernel_size <= 10
    &&& 0 <= c.sigma <= 5000
    &&& 0 <= c.sigma_scale <= 5000
    &&& 0 <= c.tau <= 1100
    &&& 1 <= c.threshold <= 100
    &&& c.edge_threshold <= 64
}

/// The validation result: the first field out of range, checked in a fixed
/// order, or success.
pub open spec fn spec_validate(c: AsciiConfig) -> Result<(), ConfigError> {
    if !(1 <= c.kernel_size <= 10) {
        Err(ConfigError::KernelSize(c.kernel_size))
    } else if !(0 <= c.sigma <= 5000) {
        Err(ConfigError::Sigma(c.sigma))
    } else if !(0 <= c.sigma_scale <= 5000) {
        Err(ConfigError::SigmaScale(c.sigma_scale))
    } else if !(0 <= c.tau <= 1100) {
        Err(ConfigError::Tau(c.tau))
    } else if !(1 <= c.threshold <= 100) {
        Err(ConfigError::Threshold(c.threshold))
    } else if !(c.edge_threshold <= 64) {
        Err(ConfigError::EdgeThreshold(c.edge_threshold))
    } else {
        Ok(())
    }
}

/// The default configuration.
pub open spec fn spec_default_config() -> AsciiConfig {
    AsciiConfig {
        kernel_size: 2,
        sigma: 2000,
        sigma_scale: 1600,
        tau: 1000,
        threshold: 5,
        edge_threshold: 8,
        ascii_color: [255, 255, 255],
        bg_color: [0, 0, 0],
        draw_edges: true,
        draw_fill: true,
        invert_luminance: false,
    }
}

impl AsciiConfig {
    /// Checks every validated field against its accepted range and reports
    /// the first violation.
    pub fn validate(&self) -> (r: Result<(), ConfigError>)
        ensures
            r == spec_validate(*self),
            r is Ok <==> spec_config_valid(*self),
    {
        if self.kernel_size < 1 || self.kernel_size > 10 {
            return Err(ConfigError::KernelSize(self.kernel_size));
        }
        if self.sigma < 0 || self.sigma > 5000 {
            return Err(ConfigError::Sigma(self.sigma));
        }
        if self.sigma_scale < 0 || self.sigma_scale > 5000 {
            return Err(ConfigError::SigmaScale(self.sigma_scale));
        }
        if self.tau < 0 || self.tau > 1100 {
            return Err(ConfigError::Tau(self.tau));
        }
        if self.threshold < 1 || self.threshold > 100 {
            return Err(ConfigError::Threshold(self.threshold));
        }
        if self.edge_threshold > 64 {
            return Err(ConfigError::EdgeThreshold(self.edge_threshold));
        }
        Ok(())
    }
}

impl Default for AsciiConfig {
    /// The default configuration; it passes validation.
    fn default() -> (c: Self)
        ensures
            c == spec_default_config(),
            spec_config_valid(c),
    {
        AsciiConfig {
            kernel_size: 2,
            sigma: 2000,
            sigma_scale: 1600,
            tau: 1000,
            threshold: 5,
            edge_threshold: 8,
            ascii_color: [255, 255, 255],
            bg_color: [0, 0, 0],
            draw_edges: true,
            draw_fill: true,
            invert_luminance: false,
        }
    }
}

} // verus!
