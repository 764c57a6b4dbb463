//! Palettes: the anchors that tie an elevation to a category and a color.

use vstd::prelude::*;
use core::cmp::Ordering;
use crate::types::{Kilometers, Length, Rgb};

verus! {

/// What a kind of surface tells the terrain generator about itself: how
/// rough it may be, and which kinds there are.  The kinds are numbered, so
/// that pixels can be counted by kind.
pub trait SurfaceDefinition: Copy {
    /// The upper limit of the surface chaos, in thousandths.
    spec fn chaos_limit() -> u32;

    /// The number of kinds of surface.
    spec fn kinds() -> nat;

    /// The number of a kind among the kinds, counted from zero.
    spec fn index_of(self) -> nat;

    /// The upper limit of the surface chaos, in thousandths.
    fn max_chaos() -> (limit: u32)
        ensures
            limit == Self::chaos_limit(),
    ;

    /// The number of kinds of surface.
    fn kind_count() -> (count: usize)
        ensures
            count == Self::kinds(),
    ;

    /// The number of the kind among the kinds.
    fn index(&self) -> (index: usize)
        ensures
            index == self.index_of(),
            index < Self::kinds(),
    ;

    /// The kind with the given number.
    fn from_index(index: usize) -> (kind: Self)
        requires
            index < Self::kinds(),
        ensures
            kind.index_of() == index,
    ;

    /// Kinds with the same number are the same kind.
    proof fn lemma_index_names_kind(self, other: Self)
        requires
            self.index_of() == other.index_of(),
        ensures
            self == other,
    ;

    /// The number of a kind is below the number of kinds.
    proof fn lemma_index_in_range(self)
        ensures
            self.index_of() < Self::kinds(),
    ;
}

/// A pairing of an elevation and a color
#[derive(Clone, Copy, Debug)]
pub struct ElevationColor<Kind> {
    pub kind: Kind,
    /// The color used for this elevation
    pub color: Rgb,
    /// The elevation of this color
    pub elevation: Length,
}

impl<Kind> ElevationColor<Kind> {
    /// Constructor to take RGB byte components and an elevation
    pub fn from_u8(kind: Kind, r: u8, g: u8, b: u8, elevation: Length) -> (anchor: Self)
        ensures
            anchor.kind == kind,
            anchor.color == (Rgb { red: r, green: g, blue: b }),
            anchor.elevation == elevation,
    {
        ElevationColor { kind, color: Rgb { red: r, green: g, blue: b }, elevation }
    }
}

impl<Kind> PartialEq for ElevationColor<Kind> {
    /// Two anchors are equal when their elevations are; neither the category
    /// nor the color is compared.
    fn eq(&self, other: &Self) -> (equal: bool) {
        self.elevation.meters == other.elevation.meters
    }
}

impl<Kind> vstd::std_specs::cmp::PartialEqSpecImpl for ElevationColor<Kind> {
    open spec fn obeys_eq_spec() -> bool {
        true
    }

    open spec fn eq_spec(&self, other: &Self) -> bool {
        self.elevation.meters == other.elevation.meters
    }
}

impl<Kind> PartialOrd for ElevationColor<Kind> {
    /// partial_cmp only compares against elevation
    fn partial_cmp(&self, other: &Self) -> (order: Option<Ordering>) {
        if self.elevation.meters < other.elevation.meters {
            Some(Ordering::Less)
        } else if self.elevation.meters > other.elevation.meters {
            Some(Ordering::Greater)
        } else {
            Some(Ordering::Equal)
        }
    }
}

impl<Kind> vstd::std_specs::cmp::PartialOrdSpecImpl for ElevationColor<Kind> {
    open spec fn obeys_partial_cmp_spec() -> bool {
        true
    }

    open spec fn partial_cmp_spec(&self, other: &Self) -> Option<Ordering> {
        if self.elevation.meters < other.elevation.meters {
            Some(Ordering::Less)
        } else if self.elevation.meters > other.elevation.meters {
            Some(Ordering::Greater)
        } else {
            Some(Ordering::Equal)
        }
    }
}

/// The elevations of a run of anchors never fall.
pub open spec fn sorted_by_elevation<Kind>(anchors: Seq<ElevationColor<Kind>>) -> bool {
    forall|i: int, j: int|
        0 <= i <= j < anchors.len() ==> anchors[i].elevation.meters <= anchors[j].elevation.meters
}

/// The elevations of a run of anchors rise from each anchor to the next.
pub open spec fn strictly_ascending<Kind>(anchors: Seq<ElevationColor<Kind>>) -> bool {
    forall|i: int, j: int|
        0 <= i < j < anchors.len() ==> anchors[i].elevation.meters < anchors[j].elevation.meters
}

/// Every elevation of the run is within the magnitude the library computes with.
pub open spec fn elevations_in_range<Kind>(anchors: Seq<ElevationColor<Kind>>) -> bool {
    forall|i: int| 0 <= i < anchors.len() ==> (#[trigger] anchors[i]).elevation.in_range()
}

/// A palette: at least one anchor, elevations in range and never falling.
pub open spec fn is_palette<Kind>(anchors: Seq<ElevationColor<Kind>>) -> bool {
    &&& 0 < anchors.len() <= MAX_ANCHORS
    &&& elevations_in_range(anchors)
    &&& sorted_by_elevation(anchors)
}

/// The largest number of anchors in a palette.
pub const MAX_ANCHORS: usize = 65_536;

/// The kinds of surface of an earthlike planet.
#[derive(Clone, Copy, Debug, Hash, Eq, PartialEq, Structural)]
pub enum Earthlike {
    DeepOcean,
    ShallowOcean,
    Beach,
    Grass,
    Forest,
    Mountain,
    Snow,
}

/// The anchor of a preset: elevation in kilometers.
pub open spec fn preset<Kind>(kind: Kind, r: u8, g: u8, b: u8, km: int) -> ElevationColor<Kind> {
    ElevationColor {
        kind,
        color: Rgb { red: r, green: g, blue: b },
        elevation: Length { meters: (km * 1000) as i64 },
    }
}

/// The anchors of the earthlike palette.
pub open spec fn earthlike_anchors() -> Seq<ElevationColor<Earthlike>> {
    seq![
        preset(Earthlike::DeepOcean, 19, 30, 180, -2000),
        preset(Earthlike::ShallowOcean, 98, 125, 223, 0),
        preset(Earthlike::Beach, 209, 207, 169, 100),
        preset(Earthlike::Grass, 152, 214, 102, 200),
        preset(Earthlike::Forest, 47, 106, 42, 600),
        preset(Earthlike::Mountain, 100, 73, 53, 1600),
        preset(Earthlike::Snow, 238, 246, 245, 1700),
    ]
}

impl ElevationColor<Earthlike> {
    /// A basic palette that resembles an earthlike planet.
    pub fn earthlike() -> (palette: Vec<Self>)
        ensures
            palette@ == earthlike_anchors(),
            is_palette(palette@),
            strictly_ascending(palette@),
    {
        let palette = vec![
            ElevationColor::from_u8(Earthlike::DeepOcean, 19, 30, 180, Kilometers::new(-2000)),
            ElevationColor::from_u8(Earthlike::ShallowOcean, 98, 125, 223, Kilometers::new(0)),
            ElevationColor::from_u8(Earthlike::Beach, 209, 207, 169, Kilometers::new(100)),
            ElevationColor::from_u8(Earthlike::Grass, 152, 214, 102, Kilometers::new(200)),
            ElevationColor::from_u8(Earthlike::Forest, 47, 106, 42, Kilometers::new(600)),
            ElevationColor::from_u8(Earthlike::Mountain, 100, 73, 53, Kilometers::new(1600)),
            ElevationColor::from_u8(Earthlike::Snow, 238, 246, 245, Kilometers::new(1700)),
        ];
        assert(palette@ =~= earthlike_anchors());
        palette
    }
}

impl SurfaceDefinition for Earthlike {
    open spec fn chaos_limit() -> u32 {
        7000
    }

    open spec fn kinds() -> nat {
        7
    }

    open spec fn index_of(self) -> nat {
        match self {
            Earthlike::DeepOcean => 0,
            Earthlike::ShallowOcean => 1,
            Earthlike::Beach => 2,
            Earthlike::Grass => 3,
            Earthlike::Forest => 4,
            Earthlike::Mountain => 5,
            Earthlike::Snow => 6,
        }
    }

    fn max_chaos() -> (limit: u32) {
        7000
    }

    fn kind_count() -> (count: usize) {
        7
    }

    fn index(&self) -> (index: usize) {
        match self {
            Earthlike::DeepOcean => 0,
            Earthlike::ShallowOcean => 1,
            Earthlike::Beach => 2,
            Earthlike::Grass => 3,
            Earthlike::Forest => 4,
            Earthlike::Mountain => 5,
            Earthlike::Snow => 6,
        }
    }

    fn from_index(index: usize) -> (kind: Self) {
        match index {
            0 => Earthlike::DeepOcean,
            1 => Earthlike::ShallowOcean,
            2 => Earthlike::Beach,
            3 => Earthlike::Grass,
            4 => Earthlike::Forest,
            5 => Earthlike::Mountain,
            _ => Earthlike::Snow,
        }
    }

    proof fn lemma_index_names_kind(self, other: Self) {
    }

    proof fn lemma_index_in_range(self) {
    }
}

/// The kinds of surface of a star.
#[derive(Clone, Copy, Debug, Hash, Eq, PartialEq, Structural)]
pub enum Sunlike {
    DeepBase,
    BrightMiddle,
    HotTop,
}

/// The anchors of the sunlike palette.
pub open spec fn sunlike_anchors() -> Seq<ElevationColor<Sunlike>> {
    seq![
        preset(Sunlike::DeepBase, 189, 31, 10, -200),
        preset(Sunlike::BrightMiddle, 250, 156, 56, -180),
        preset(Sunlike::HotTop, 255, 218, 41, 200),
    ]
}

impl ElevationColor<Sunlike> {
    /// A basic palette that resembles a star like our sun.
    pub fn sunlike() -> (palette: Vec<Self>)
        ensures
            palette@ == sunlike_anchors(),
            is_palette(palette@),
            strictly_ascending(palette@),
    {
        let palette = vec![
            // Deep base glow
            ElevationColor::from_u8(Sunlike::DeepBase, 189, 31, 10, Kilometers::new(-200)),
            // Bright middle
            ElevationColor::from_u8(Sunlike::BrightMiddle, 250, 156, 56, Kilometers::new(-180)),
            // Hot top
            ElevationColor::from_u8(Sunlike::HotTop, 255, 218, 41, Kilometers::new(200)),
        ];
        assert(palette@ =~= sunlike_anchors());
        palette
    }
}

impl SurfaceDefinition for Sunlike {
    open spec fn chaos_limit() -> u32 {
        20000
    }

    open spec fn kinds() -> nat {
        3
    }

    open spec fn index_of(self) -> nat {
        match self {
            Sunlike::DeepBase => 0,
            Sunlike::BrightMiddle => 1,
            Sunlike::HotTop => 2,
        }
    }

    fn max_chaos() -> (limit: u32) {
        20000
    }

    fn kind_count() -> (count: usize) {
        3
    }

    fn index(&self) -> (index: usize) {
        match self {
            Sunlike::DeepBase => 0,
            Sunlike::BrightMiddle => 1,
            Sunlike::HotTop => 2,
        }
    }

    fn from_index(index: usize) -> (kind: Self) {
        match index {
            0 => Sunlike::DeepBase,
            1 => Sunlike::BrightMiddle,
            _ => Sunlike::HotTop,
        }
    }

    proof fn lemma_index_names_kind(self, other: Self) {
    }

    proof fn lemma_index_in_range(self) {
    }
}

} // verus!
