//! Descriptions of the offscreen targets and of the pipeline that the
//! portal passes use.
//!
//! The library never touches a texture. It keeps, as plain values, what the
//! render logic reads from them: sizes, formats and binding slots. The
//! embedding program allocates the resources that these values describe.

use vstd::prelude::*;

verus! {

/// The pixel format of a target.
#[derive(Clone, Copy, Debug, PartialEq, Eq, Structural)]
pub enum TargetFormat {
    /// The colour format of the output surface.
    Surface,
    /// 32-bit floating-point depth.
    Depth32Float,
}

/// Size and format of one texture.
#[derive(Clone, Copy, Debug, PartialEq, Eq, Structural)]
pub struct TextureInfo {
    pub width: u32,
    pub height: u32,
    pub format: TargetFormat,
}

/// The depth-only target that receives the silhouette of a portal's
/// aperture, and the slot at which the scene pass reads it back.
#[derive(Clone, Copy, Debug, PartialEq, Eq, Structural)]
pub struct PortalDepthTexture {
    pub texture: TextureInfo,
    /// Binding of the texture inside its bind group.
    pub binding: u32,
}

impl PortalDepthTexture {
    /// What [`PortalDepthTexture::new`] returns.
    pub open spec fn spec_new(width: u32, height: u32) -> PortalDepthTexture {
        PortalDepthTexture {
            texture: TextureInfo { width, height, format: TargetFormat::Depth32Float },
            binding: 0,
        }
    }

    /// The silhouette target for an output of `width` by `height` pixels.
    pub fn new(width: u32, height: u32) -> (pd: PortalDepthTexture)
        ensures
            pd == Self::spec_new(width, height),
    {
        PortalDepthTexture {
            texture: TextureInfo { width, height, format: TargetFormat::Depth32Float },
            binding: 0,
        }
    }
}

/// One entry of the pool of offscreen targets: colour and depth for the
/// view behind a portal, and the silhouette target that clips it.
#[derive(Clone, Copy, Debug, PartialEq, Eq, Structural)]
pub struct PortalView {
    pub color: TextureInfo,
    /// The depth for the scene.
    pub depth: TextureInfo,
    pub pd: PortalDepthTexture,
    /// Binding of the colour texture inside the bind group through which a
    /// later pass samples it.
    pub color_binding: u32,
}

impl PortalView {
    /// What [`PortalView::new`] returns.
    pub open spec fn spec_new(width: u32, height: u32) -> PortalView {
        PortalView {
            color: TextureInfo { width, height, format: TargetFormat::Surface },
            depth: TextureInfo { width, height, format: TargetFormat::Depth32Float },
            pd: PortalDepthTexture::spec_new(width, height),
            color_binding: 0,
        }
    }

    /// Whether the entry was made for an output of `width` by `height`.
    pub open spec fn spec_fits(self, width: u32, height: u32) -> bool {
        self.color.width == width && self.color.height == height
    }

    /// A pool entry for an output of `width` by `height` pixels: all three
    /// targets have the size of the output.
    pub fn new(width: u32, height: u32) -> (view: PortalView)
        ensures
            view == Self::spec_new(width, height),
    {
        PortalView {
            color: TextureInfo { width, height, format: TargetFormat::Surface },
            depth: TextureInfo { width, height, format: TargetFormat::Depth32Float },
            pd: PortalDepthTexture::new(width, height),
            color_binding: 0,
        }
    }

    /// Whether the entry was made for an output of `width` by `height`.
    pub fn fits(&self, width: u32, height: u32) -> (b: bool)
        ensures
            b == self.spec_fits(width, height),
    {
        self.color.width == width && self.color.height == height
    }
}

/// How vertices are assembled into primitives.
#[derive(Clone, Copy, Debug, PartialEq, Eq, Structural)]
pub enum Topology {
    PointList,
    LineList,
    LineStrip,
    TriangleList,
    TriangleStrip,
}

/// When a fragment passes the depth test, given its depth and the depth
/// that is stored.
#[derive(Clone, Copy, Debug, PartialEq, Eq, Structural)]
pub enum DepthTest {
    Never,
    Less,
    Equal,
    LessEqual,
    Greater,
    NotEqual,
    GreaterEqual,
    Always,
}

/// How the colour of a fragment meets the colour that is stored.
#[derive(Clone, Copy, Debug, PartialEq, Eq, Structural)]
pub enum Blend {
    /// The fragment's colour takes the place of the stored one.
    Replace,
    /// The two are mixed by the fragment's alpha.
    AlphaBlending,
}

/// The shader stages that see a binding.
#[derive(Clone, Copy, Debug, PartialEq, Eq, Structural)]
pub enum Stages {
    Vertex,
    Fragment,
    VertexFragment,
}

/// The pipeline that draws a world as seen through a portal.
///
/// It extends the pipeline for plain geometry by one bind group, through
/// which the fragment stage reads the silhouette of the aperture.
#[derive(Clone, Copy, Debug, PartialEq, Eq, Structural)]
pub struct PortalRenderer {
    /// Number of bind groups of the pipeline layout.
    pub bind_groups: u32,
    /// Bind group of what every pass of the plain pipeline binds.
    pub base_group: u32,
    /// Bind group of the object, in which a composite binds the colour
    /// texture that it samples.
    pub color_group: u32,
    /// Bind group of the silhouette.
    pub depth_group: u32,
    /// Number of entries of the silhouette's bind group.
    pub depth_entries: u32,
    /// Binding of the silhouette inside its group.
    pub depth_binding: u32,
    /// The stages that see the silhouette.
    pub depth_visibility: Stages,
    /// Whether the silhouette is read as a multisampled texture.
    pub depth_multisampled: bool,
    /// How vertices are assembled.
    pub topology: Topology,
    /// Whether both faces of a triangle are drawn.
    pub two_sided: bool,
    /// Format of the depth target.
    pub depth_format: TargetFormat,
    /// Whether the pass writes depth.
    pub depth_write: bool,
    /// When a fragment passes the depth test.
    pub depth_compare: DepthTest,
    /// Number of colour targets.
    pub color_targets: u32,
    /// Format of the colour target.
    pub color_format: TargetFormat,
    /// How a fragment's colour meets the stored one.
    pub blend: Blend,
    /// Samples for each pixel.
    pub samples: u32,
}

impl PortalRenderer {
    /// What [`PortalRenderer::new`] returns.
    pub open spec fn spec_new() -> PortalRenderer {
        PortalRenderer {
            bind_groups: 3,
            base_group: 0,
            color_group: 1,
            depth_group: 2,
            depth_entries: 1,
            depth_binding: 0,
            depth_visibility: Stages::Fragment,
            depth_multisampled: false,
            topology: Topology::TriangleStrip,
            two_sided: true,
            depth_format: TargetFormat::Depth32Float,
            depth_write: true,
            depth_compare: DepthTest::Less,
            color_targets: 1,
            color_format: TargetFormat::Surface,
            blend: Blend::Replace,
            samples: 1,
        }
    }

    /// The description of the portal view pipeline. Its bind groups are
    /// those of the plain pipeline, base and object, and after them the
    /// silhouette: one depth texture, not multisampled, seen by the fragment
    /// stage. It draws triangle strips, both faces, into one colour target
    /// of the surface's format, where the fragment's colour replaces what is
    /// stored, and tests and writes 32-bit depth, passing what is nearer.
    pub fn new() -> (renderer: PortalRenderer)
        ensures
            renderer == Self::spec_new(),
    {
        PortalRenderer {
            bind_groups: 3,
            base_group: 0,
            color_group: 1,
            depth_group: 2,
            depth_entries: 1,
            depth_binding: 0,
            depth_visibility: Stages::Fragment,
            depth_multisampled: false,
            topology: Topology::TriangleStrip,
            two_sided: true,
            depth_format: TargetFormat::Depth32Float,
            depth_write: true,
            depth_compare: DepthTest::Less,
            color_targets: 1,
            color_format: TargetFormat::Surface,
            blend: Blend::Replace,
            samples: 1,
        }
    }
}

} // verus!
