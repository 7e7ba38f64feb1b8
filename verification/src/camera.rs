//! Camera state: a world-space viewport with mode flags.
//!
//! The camera is centered on `loc` with size `dim` (both in sub-cell world
//! units). `autoresize` keeps the viewport glued to the terminal size;
//! `stretch` switches the projection from 1:1 tiling to a normalized,
//! grid-filling mapping.

use vstd::prelude::*;
use crate::geometry::{Vec2i, Vec3i, WORLD_MAX};

verus! {

/// Notification that the camera viewport took a new size.
#[derive(Clone, Copy, PartialEq, Eq, Structural, Debug)]
pub struct CameraResized(pub Vec2i);

/// The single 2D terminal camera.
pub struct TerminalCamera2d {
    pub dim: Vec2i,
    pub loc: Vec3i,
    pub settings: TerminalCamera2dSettings,
}

/// Camera mode flags.
#[derive(Clone, Copy, PartialEq, Eq, Structural, Debug)]
pub struct TerminalCamera2dSettings {
    pub stretch: bool,
    pub autoresize: bool,
}

impl Default for TerminalCamera2dSettings {
    /// Tiled projection, viewport following the terminal size.
    fn default() -> (r: Self)
        ensures
            !r.stretch(),
            r.autoresize(),
    {
        Self { stretch: false, autoresize: true }
    }
}

impl TerminalCamera2dSettings {
    pub open spec fn spec_autoresize(&self) -> bool {
        self.autoresize
    }

    pub open spec fn spec_stretch(&self) -> bool {
        self.stretch
    }

    #[verifier::when_used_as_spec(spec_autoresize)]
    pub fn autoresize(&self) -> (r: bool)
        ensures
            r == self.autoresize,
    {
        self.autoresize
    }

    pub fn set_autoresize(&mut self, autoresize: bool)
        ensures
            final(self).autoresize == autoresize,
            final(self).stretch == old(self).stretch,
    {
        self.autoresize = autoresize;
    }

    pub fn set_stretch(&mut self, stretch: bool)
        ensures
            final(self).stretch == stretch,
            final(self).autoresize == old(self).autoresize,
    {
        self.stretch = stretch;
    }

    #[verifier::when_used_as_spec(spec_stretch)]
    pub fn stretch(&self) -> (r: bool)
        ensures
            r == self.stretch,
    {
        self.stretch
    }
}

impl TerminalCamera2d {
    /// Well-formed camera state: the viewport size is non-negative (a
    /// negative size has no geometric meaning and zero size simply projects
    /// nothing) and every component is small enough for exact projection
    /// arithmetic.
    pub open spec fn wf(self) -> bool {
        &&& self.dim.size_wf()
        &&& self.loc.bounded()
    }

    pub open spec fn spec_dim(&self) -> Vec2i {
        self.dim
    }

    pub open spec fn spec_loc(&self) -> Vec3i {
        self.loc
    }

    pub open spec fn spec_settings(&self) -> TerminalCamera2dSettings {
        self.settings
    }

    pub fn new(dim: Vec2i, loc: Vec3i) -> (r: Self)
        requires
            dim.size_wf(),
            loc.bounded(),
        ensures
            r.wf(),
            r.dim() == dim,
            r.loc() == loc,
            !r.settings().stretch,
            r.settings().autoresize,
    {
        Self { dim, loc, settings: Default::default() }
    }

    /// The viewport width, in sub-cell units.
    pub fn width(&self) -> (r: i64)
        ensures
            r == self.dim.x,
    {
        self.dim.x
    }

    /// The viewport height, in sub-cell units.
    pub fn height(&self) -> (r: i64)
        ensures
            r == self.dim.y,
    {
        self.dim.y
    }

    pub fn set_width(&mut self, width: i64)
        requires
            0 <= width <= WORLD_MAX,
        ensures
            final(self).dim == (Vec2i { x: width, y: old(self).dim.y }),
            final(self).loc == old(self).loc,
            final(self).settings == old(self).settings,
            old(self).wf() ==> final(self).wf(),
    {
        self.dim.x = width;
    }

    pub fn set_height(&mut self, height: i64)
        requires
            0 <= height <= WORLD_MAX,
        ensures
            final(self).dim == (Vec2i { x: old(self).dim.x, y: height }),
            final(self).loc == old(self).loc,
            final(self).settings == old(self).settings,
            old(self).wf() ==> final(self).wf(),
    {
        self.dim.y = height;
    }

    pub fn x(&self) -> (r: i64)
        ensures
            r == self.loc.x,
    {
        self.loc.x
    }

    pub fn y(&self) -> (r: i64)
        ensures
            r == self.loc.y,
    {
        self.loc.y
    }

    pub fn z(&self) -> (r: i64)
        ensures
            r == self.loc.z,
    {
        self.loc.z
    }

    pub fn move_x(&mut self, x: i64)
        requires
            old(self).wf(),
            -WORLD_MAX <= old(self).loc.x + x <= WORLD_MAX,
        ensures
            final(self).wf(),
            final(self).loc == (Vec3i { x: (old(self).loc.x + x) as i64, ..old(self).loc }),
            final(self).dim == old(self).dim,
            final(self).settings == old(self).settings,
    {
        self.loc.x = self.loc.x + x;
    }

    pub fn move_y(&mut self, y: i64)
        requires
            old(self).wf(),
            -WORLD_MAX <= old(self).loc.y + y <= WORLD_MAX,
        ensures
            final(self).wf(),
            final(self).loc == (Vec3i { y: (old(self).loc.y + y) as i64, ..old(self).loc }),
            final(self).dim == old(self).dim,
            final(self).settings == old(self).settings,
    {
        self.loc.y = self.loc.y + y;
    }

    pub fn move_z(&mut self, z: i64)
        requires
            old(self).wf(),
            -WORLD_MAX <= old(self).loc.z + z <= WORLD_MAX,
        ensures
            final(self).wf(),
            final(self).loc == (Vec3i { z: (old(self).loc.z + z) as i64, ..old(self).loc }),
            final(self).dim == old(self).dim,
            final(self).settings == old(self).settings,
    {
        self.loc.z = self.loc.z + z;
    }

    pub fn set_x(&mut self, x: i64)
        requires
            -WORLD_MAX <= x <= WORLD_MAX,
        ensures
            final(self).loc == (Vec3i { x: x, ..old(self).loc }),
            final(self).dim == old(self).dim,
            final(self).settings == old(self).settings,
            old(self).wf() ==> final(self).wf(),
    {
        self.loc.x = x;
    }

    pub fn set_y(&mut self, y: i64)
        requires
            -WORLD_MAX <= y <= WORLD_MAX,
        ensures
            final(self).loc == (Vec3i { y: y, ..old(self).loc }),
            final(self).dim == old(self).dim,
            final(self).settings == old(self).settings,
            old(self).wf() ==> final(self).wf(),
    {
        self.loc.y = y;
    }

    pub fn set_z(&mut self, z: i64)
        requires
            -WORLD_MAX <= z <= WORLD_MAX,
        ensures
            final(self).loc == (Vec3i { z: z, ..old(self).loc }),
            final(self).dim == old(self).dim,
            final(self).settings == old(self).settings,
            old(self).wf() ==> final(self).wf(),
    {
        self.loc.z = z;
    }

    pub fn move_by(&mut self, vec: Vec3i)
        requires
            old(self).wf(),
            -WORLD_MAX <= old(self).loc().x + vec.x <= WORLD_MAX,
            -WORLD_MAX <= old(self).loc().y + vec.y <= WORLD_MAX,
            -WORLD_MAX <= old(self).loc().z + vec.z <= WORLD_MAX,
        ensures
            final(self).wf(),
            final(self).loc().x == old(self).loc().x + vec.x,
            final(self).loc().y == old(self).loc().y + vec.y,
            final(self).loc().z == old(self).loc().z + vec.z,
            final(self).dim() == old(self).dim(),
            final(self).settings() == old(self).settings(),
    {
        self.loc = Vec3i {
            x: self.loc.x + vec.x,
            y: self.loc.y + vec.y,
            z: self.loc.z + vec.z,
        };
    }

    pub fn settings_ref(&self) -> (r: &TerminalCamera2dSettings)
        ensures
            *r == self.settings(),
    {
        &self.settings
    }

    pub fn set_autoresize(&mut self, autoresize: bool)
        ensures
            final(self).settings().autoresize == autoresize,
            final(self).settings().stretch == old(self).settings().stretch,
            final(self).dim() == old(self).dim(),
            final(self).loc() == old(self).loc(),
    {
        self.settings.set_autoresize(autoresize);
    }

    pub fn set_stretch(&mut self, stretch: bool)
        ensures
            final(self).settings().stretch == stretch,
            final(self).settings().autoresize == old(self).settings().autoresize,
            final(self).dim() == old(self).dim(),
            final(self).loc() == old(self).loc(),
    {
        self.settings.set_stretch(stretch);
    }

    pub fn set_loc(&mut self, loc: Vec3i)
        requires
            loc.bounded(),
        ensures
            final(self).loc() == loc,
            final(self).dim() == old(self).dim(),
            final(self).settings() == old(self).settings(),
            old(self).wf() ==> final(self).wf(),
    {
        self.loc = loc;
    }

    #[verifier::when_used_as_spec(spec_loc)]
    pub fn loc(&self) -> (r: Vec3i)
        ensures
            r == self.loc,
    {
        self.loc
    }

    #[verifier::when_used_as_spec(spec_dim)]
    pub fn dim(&self) -> (r: Vec2i)
        ensures
            r == self.dim,
    {
        self.dim
    }

    #[verifier::when_used_as_spec(spec_settings)]
    pub fn settings(&self) -> (r: TerminalCamera2dSettings)
        ensures
            r == self.settings,
    {
        self.settings
    }

    pub fn set_dim(&mut self, dim: Vec2i)
        requires
            dim.size_wf(),
        ensures
            final(self).dim() == dim,
            final(self).loc() == old(self).loc(),
            final(self).settings() == old(self).settings(),
            old(self).wf() ==> final(self).wf(),
    {
        self.dim = dim;
    }
}

impl Default for TerminalCamera2d {
    /// A zero-sized camera at the origin with default settings.
    fn default() -> (r: Self)
        ensures
            r.wf(),
            r.dim() == (Vec2i { x: 0, y: 0 }),
            r.loc() == (Vec3i { x: 0, y: 0, z: 0 }),
            !r.settings().stretch,
            r.settings().autoresize,
    {
        Self {
            dim: Vec2i { x: 0, y: 0 },
            loc: Vec3i { x: 0, y: 0, z: 0 },
            settings: Default::default(),
        }
    }
}

/// Apply a terminal resize to an auto-resizing camera: the viewport takes
/// the terminal's size, in whole cells. Reports the new size only when it
/// actually changed, so a host can forward the notification to whoever
/// tracks the camera frame.
pub fn apply_terminal_resize(camera: &mut TerminalCamera2d, width: u16, height: u16) -> (r:
    Option<CameraResized>)
    requires
        old(camera).wf(),
    ensures
        final(camera).wf(),
        final(camera).loc() == old(camera).loc(),
        final(camera).settings() == old(camera).settings(),
        !old(camera).settings().autoresize ==> final(camera).dim() == old(camera).dim() && r is None,
        old(camera).settings().autoresize ==> {
            let update = Vec2i {
                x: (width as int * crate::UNITS_PER_CELL as int) as i64,
                y: (height as int * crate::UNITS_PER_CELL as int) as i64,
            };
            &&& final(camera).dim() == update
            &&& (r == Some(CameraResized(update)) <==> old(camera).dim() != update)
            &&& (r is None <==> old(camera).dim() == update)
        },
{
    if !camera.settings_ref().autoresize() {
        return None;
    }
    let update = Vec2i::new(
        width as i64 * crate::UNITS_PER_CELL,
        height as i64 * crate::UNITS_PER_CELL,
    );
    if update.x != camera.dim().x || update.y != camera.dim().y {
        camera.set_dim(update);
        Some(CameraResized(update))
    } else {
        None
    }
}

} // verus!
