//! Outputs as the display server describes them, and what the daemon derives
//! from such a description: the pixel size of the buffers to build, and how a
//! surface has to be scaled to cover the output.

use vstd::prelude::*;

verus! {

/// Rotation and mirroring of an output.
#[derive(Clone, Copy, Debug, PartialEq, Eq, Structural)]
pub enum Transform {
    Normal,
    Rotated90,
    Rotated180,
    Rotated270,
    Flipped,
    Flipped90,
    Flipped180,
    Flipped270,
    /// A transform this library does not know; treated like `Normal`.
    Unsupported,
}

/// One video mode of an output.
#[derive(Clone, Copy, Debug)]
pub struct OutputMode {
    /// Width and height in pixels, before the transform is applied.
    pub dimensions: (i32, i32),
    /// Whether the output currently runs in this mode.
    pub current: bool,
}

/// What the display server has announced about one output.
pub struct OutputInfo {
    pub name: Option<String>,
    pub modes: Vec<OutputMode>,
    pub transform: Transform,
    pub scale_factor: i32,
    pub logical_size: Option<(i32, i32)>,
}

/// Why an output cannot be given a background.
#[derive(Clone, Copy, Debug, PartialEq, Eq, Structural)]
pub enum OutputError {
    /// The display server holds no description of the output.
    NoInfo,
    /// The output has no name.
    NoName,
    /// None of the output's modes is marked current.
    NoCurrentMode,
    /// The current mode's width or height is zero or negative.
    NonPositiveResolution,
    /// The output has no logical size.
    NoLogicalSize,
    /// The logical width or height is zero or negative.
    NonPositiveLogicalSize,
    /// No background layer exists for an output of this name.
    NoBackgroundLayer,
}

/// The measures of a usable output. `width` and `height` are those of the
/// buffers shown on it: the current mode's, with the axes swapped where the
/// transform turns the output by a quarter.
#[derive(Clone, Copy, Debug, PartialEq, Eq, Structural)]
pub struct OutputGeometry {
    pub width: i32,
    pub height: i32,
    pub transform: Transform,
    pub scale_factor: i32,
    pub logical_width: i32,
    pub logical_height: i32,
}

/// How a surface is fitted to its output.
#[derive(Clone, Copy, Debug, PartialEq, Eq, Structural)]
pub enum Scaling {
    /// Buffer pixels are output pixels.
    Unscaled,
    /// The buffer scale is set to this integer factor.
    Integer(i32),
    /// A viewport maps the buffer onto this logical size.
    Fractional { logical_width: i32, logical_height: i32 },
}

/// The dimensions of the first mode marked current among `modes[start..]`.
pub open spec fn current_mode_from(modes: Seq<OutputMode>, start: int) -> Option<(i32, i32)>
    decreases modes.len() - start,
{
    if start < 0 || start >= modes.len() {
        None
    } else if modes[start].current {
        Some(modes[start].dimensions)
    } else {
        current_mode_from(modes, start + 1)
    }
}

/// The dimensions of the first mode marked current.
pub open spec fn current_mode_of(modes: Seq<OutputMode>) -> Option<(i32, i32)> {
    current_mode_from(modes, 0)
}

/// Whether the transform turns the output by a quarter, so that width and
/// height change places.
pub open spec fn swaps_axes(transform: Transform) -> bool {
    transform is Rotated90 || transform is Rotated270 || transform is Flipped90
        || transform is Flipped270
}

/// The geometry that a description yields, or the first reason why it
/// yields none.
pub open spec fn geometry_of(info: Option<&OutputInfo>) -> Result<OutputGeometry, OutputError> {
    match info {
        None => Err(OutputError::NoInfo),
        Some(info) => {
            if info.name is None {
                Err(OutputError::NoName)
            } else {
                match current_mode_of(info.modes@) {
                    None => Err(OutputError::NoCurrentMode),
                    Some((mode_width, mode_height)) => {
                        if mode_width <= 0 || mode_height <= 0 {
                            Err(OutputError::NonPositiveResolution)
                        } else {
                            match info.logical_size {
                                None => Err(OutputError::NoLogicalSize),
                                Some((logical_width, logical_height)) => {
                                    if logical_width <= 0 || logical_height <= 0 {
                                        Err(OutputError::NonPositiveLogicalSize)
                                    } else {
                                        Ok(
                                            OutputGeometry {
                                                width: if swaps_axes(info.transform) {
                                                    mode_height
                                                } else {
                                                    mode_width
                                                },
                                                height: if swaps_axes(info.transform) {
                                                    mode_width
                                                } else {
                                                    mode_height
                                                },
                                                transform: info.transform,
                                                scale_factor: info.scale_factor,
                                                logical_width,
                                                logical_height,
                                            },
                                        )
                                    }
                                },
                            }
                        }
                    },
                }
            }
        },
    }
}

impl OutputGeometry {
    /// No scaling where one axis already has its logical length; integer
    /// scaling where both axes are the logical lengths times the scale
    /// factor; a viewport otherwise.
    pub open spec fn scaling_spec(self) -> Scaling {
        if self.width == self.logical_width || self.height == self.logical_height {
            Scaling::Unscaled
        } else if self.width == self.logical_width * self.scale_factor && self.height
            == self.logical_height * self.scale_factor {
            Scaling::Integer(self.scale_factor)
        } else {
            Scaling::Fractional {
                logical_width: self.logical_width,
                logical_height: self.logical_height,
            }
        }
    }

    /// Whether both measures are strictly positive, as those of every
    /// geometry that [`describe_output`] returns.
    pub open spec fn positive(self) -> bool {
        self.width > 0 && self.height > 0 && self.logical_width > 0 && self.logical_height > 0
    }

    /// How a surface on this output has to be scaled.
    pub fn scaling(&self) -> (scaling: Scaling)
        ensures
            scaling == self.scaling_spec(),
    {
        if self.width == self.logical_width || self.height == self.logical_height {
            return Scaling::Unscaled;
        }
        assert(-0x8000_0000 * 0x8000_0000 <= self.logical_width * self.scale_factor
            <= 0x8000_0000 * 0x8000_0000) by (nonlinear_arith)
            requires
                -0x8000_0000 <= self.logical_width < 0x8000_0000,
                -0x8000_0000 <= self.scale_factor < 0x8000_0000,
        ;
        assert(-0x8000_0000 * 0x8000_0000 <= self.logical_height * self.scale_factor
            <= 0x8000_0000 * 0x8000_0000) by (nonlinear_arith)
            requires
                -0x8000_0000 <= self.logical_height < 0x8000_0000,
                -0x8000_0000 <= self.scale_factor < 0x8000_0000,
        ;
        let scaled_width: i64 = (self.logical_width as i64) * (self.scale_factor as i64);
        let scaled_height: i64 = (self.logical_height as i64) * (self.scale_factor as i64);
        if self.width as i64 == scaled_width && self.height as i64 == scaled_height {
            Scaling::Integer(self.scale_factor)
        } else {
            Scaling::Fractional {
                logical_width: self.logical_width,
                logical_height: self.logical_height,
            }
        }
    }
}

/// The dimensions of the first mode marked current, if there is one.
pub fn current_mode(modes: &Vec<OutputMode>) -> (dimensions: Option<(i32, i32)>)
    ensures
        dimensions == current_mode_of(modes@),
{
    let mut index: usize = 0;
    while index < modes.len()
        invariant
            index <= modes.len(),
            current_mode_of(modes@) == current_mode_from(modes@, index as int),
        decreases modes.len() - index,
    {
        if modes[index].current {
            return Some(modes[index].dimensions);
        }
        index += 1;
    }
    None
}

/// Checks a description in the order name, current mode, resolution, logical
/// size, and derives the geometry of the buffers for the output.
pub fn describe_output(info: Option<&OutputInfo>) -> (described: Result<
    OutputGeometry,
    OutputError,
>)
    ensures
        described == geometry_of(info),
        described matches Ok(geometry) ==> geometry.positive(),
{
    let info = match info {
        None => {
            return Err(OutputError::NoInfo);
        },
        Some(info) => info,
    };
    if info.name.is_none() {
        return Err(OutputError::NoName);
    }
    let (mode_width, mode_height) = match current_mode(&info.modes) {
        None => {
            return Err(OutputError::NoCurrentMode);
        },
        Some(dimensions) => dimensions,
    };
    if mode_width <= 0 || mode_height <= 0 {
        return Err(OutputError::NonPositiveResolution);
    }
    let (width, height) = match info.transform {
        Transform::Rotated90 | Transform::Rotated270 | Transform::Flipped90
        | Transform::Flipped270 => (mode_height, mode_width),
        _ => (mode_width, mode_height),
    };
    let (logical_width, logical_height) = match info.logical_size {
        None => {
            return Err(OutputError::NoLogicalSize);
        },
        Some(size) => size,
    };
    if logical_width <= 0 || logical_height <= 0 {
        return Err(OutputError::NonPositiveLogicalSize);
    }
    Ok(
        OutputGeometry {
            width,
            height,
            transform: info.transform,
            scale_factor: info.scale_factor,
            logical_width,
            logical_height,
        },
    )
}

} // verus!
