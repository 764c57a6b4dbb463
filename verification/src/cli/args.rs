//! The options of the command line, as plain values, and what they mean.

use vstd::prelude::*;
use vstd::string::StringSliceAdditionalSpecFns;
use crate::coloring::{Earthlike, ElevationColor};
use crate::lighting::{Light, ONE_SOL, clear_of_star};
use crate::numeric::magnitude;
use crate::planet::{Planet, calculate_origin, orbit_coordinate};
use crate::types::{Angle, Kilometers, Point, Rgb, METERS_PER_KILOMETER};

verus! {

/// Makes the error of the `hex` crate known; nothing is claimed of it.
#[verifier::external_type_specification]
#[verifier::external_body]
pub struct ExFromHexError(hex::FromHexError);

/// Why a set of options cannot be carried out.
#[derive(Clone, Copy, Debug, PartialEq, Eq, Structural)]
pub enum ConfigError {
    /// The color of the sun is not a run of pairs of hexadecimal digits.
    MalformedColor,
    /// The color of the sun does not have exactly three bytes.
    ColorLength,
    /// The radius of the planet is not positive.
    Radius,
    /// The sun, which shines, stands at a point of the planet that the
    /// image shows: its light has no direction there.
    Distance,
    /// The angle is not a direction: its components are not the cosine and
    /// the sine of one angle.
    Angle,
    /// The resolution is larger than an image can be.
    Resolution,
}

/// The arguments of the command line.
#[derive(Debug)]
pub struct Args {
    pub command: Option<Command>,
}

/// Which planet is meant.
#[derive(Debug, Clone, Copy)]
pub enum PlanetCommand {
    New(NewPlanetOptions),
}

/// What is to be done with the planet.
#[derive(Debug)]
pub enum Command {
    Edit(Edit),
    Generate(Generate),
}

/// The options of the interactive editor.
#[derive(Debug)]
pub struct Edit {
    /// Render resolution, in pixels
    pub resolution: Option<u32>,
    pub command: Option<PlanetCommand>,
    /// Simulate sun lighting, using the hexadecimal color.
    pub sun_color: Option<String>,
    /// If simulating the sun, how intense should the light be?  In
    /// thousandths of a sun.
    pub sols: Option<u32>,
}

/// The options for generating an image.
#[derive(Debug)]
pub struct Generate {
    pub output: Option<String>,
    /// Render resolution, in pixels
    pub resolution: Option<u32>,
    /// Repeat duration, in milliseconds
    pub repeat: Option<u32>,
    pub command: Option<PlanetCommand>,
    /// Simulate sun lighting, using the hexadecimal color.
    pub sun_color: Option<String>,
    /// If simulating the sun, how intense should the light be?  In
    /// thousandths of a sun.
    pub sols: Option<u32>,
}

/// The options of a new planet.
#[derive(Debug, Clone, Copy)]
pub struct NewPlanetOptions {
    /// Planet distance from sun, in kilometers
    pub distance: Option<i32>,
    /// Planet rotation around the sun
    pub angle: Option<Angle>,
    /// Planet's radius, in kilometers
    pub radius: Option<i32>,
}

/// The distance of a planet from its sun, in kilometers, where none is given.
pub const DEFAULT_DISTANCE: i32 = 150_200_000;

/// The radius of a planet, in kilometers, where none is given.
pub const DEFAULT_RADIUS: i32 = 6_371;

/// The resolution of an image, in pixels, where none is given.
pub const DEFAULT_RESOLUTION: u32 = 128;

/// The rotation of a planet around its sun where none is given: the
/// direction of -2.35619 radians, close to minus three quarters of a half
/// turn.
pub open spec fn default_angle() -> Angle {
    Angle { cos: (-707_104i32), sin: (-707_110i32) }
}

/// Whether `byte` is a hexadecimal digit.
pub open spec fn is_hex_digit(byte: u8) -> bool {
    (0x30 <= byte <= 0x39) || (0x41 <= byte <= 0x46) || (0x61 <= byte <= 0x66)
}

/// The value of a hexadecimal digit.
pub open spec fn hex_value(byte: u8) -> int {
    if 0x30 <= byte <= 0x39 {
        byte - 0x30
    } else if 0x41 <= byte <= 0x46 {
        byte - 0x41 + 10
    } else {
        byte - 0x61 + 10
    }
}

/// Whether `text` is a run of pairs of hexadecimal digits.
pub open spec fn is_hex(text: Seq<u8>) -> bool {
    &&& text.len() % 2 == 0
    &&& forall|i: int| 0 <= i < text.len() ==> is_hex_digit(#[trigger] text[i])
}

/// The bytes that a run of pairs of hexadecimal digits stands for.
pub open spec fn hex_bytes(text: Seq<u8>) -> Seq<u8> {
    Seq::new(
        text.len() / 2,
        |i: int| (16 * hex_value(text[2 * i]) + hex_value(text[2 * i + 1])) as u8,
    )
}

/// Calls `hex::decode`.  The contract claims that it succeeds exactly on a
/// run of pairs of hexadecimal digits, of either case, and then returns one
/// byte for each pair, the first digit of a pair being the higher.
#[verifier::external_body]
fn decode(text: &[u8]) -> (decoded: Result<Vec<u8>, hex::FromHexError>)
    ensures
        decoded.is_ok() <==> is_hex(text@),
        decoded matches Ok(bytes) ==> bytes@ == hex_bytes(text@),
{
    hex::decode(text)
}

/// The color that six hexadecimal digits stand for.
pub open spec fn color_of(text: Seq<u8>) -> Rgb {
    Rgb { red: hex_bytes(text)[0], green: hex_bytes(text)[1], blue: hex_bytes(text)[2] }
}

/// What `text` is read as: a color if it is six hexadecimal digits, else
/// the reason why it is none.
pub open spec fn parsed_color(text: Seq<u8>) -> Result<Rgb, ConfigError> {
    if !is_hex(text) {
        Err(ConfigError::MalformedColor)
    } else if text.len() != 6 {
        Err(ConfigError::ColorLength)
    } else {
        Ok(color_of(text))
    }
}

/// Reads a color from six hexadecimal digits, such as `FF1234`.
pub fn parse_color(text: &str) -> (parsed: Result<Rgb, ConfigError>)
    ensures
        parsed == parsed_color(text.spec_bytes()),
{
    match decode(text.as_bytes()) {
        Err(_) => Err(ConfigError::MalformedColor),
        Ok(bytes) => {
            if bytes.len() != 3 {
                Err(ConfigError::ColorLength)
            } else {
                Ok(Rgb { red: bytes[0], green: bytes[1], blue: bytes[2] })
            }
        },
    }
}

/// The color of the sun that a text, if there is one, is read as.
pub open spec fn sun_color_of(text: Option<Seq<char>>) -> Result<Option<Rgb>, ConfigError> {
    match text {
        None => Ok(None),
        Some(chars) => match parsed_color(vstd::utf8::encode_utf8(chars)) {
            Ok(color) => Ok(Some(color)),
            Err(error) => Err(error),
        },
    }
}

/// The light that the options ask for: none without a color, and with one
/// a light of that color and of the intensity given, or of one sun.
pub open spec fn light_of(text: Option<Seq<char>>, sols: Option<u32>) -> Result<
    Option<Light>,
    ConfigError,
> {
    match sun_color_of(text) {
        Ok(None) => Ok(None),
        Ok(Some(color)) => Ok(
            Some(
                Light {
                    color,
                    sols: match sols {
                        Some(given) => given,
                        None => ONE_SOL,
                    },
                },
            ),
        ),
        Err(error) => Err(error),
    }
}

/// Options that may ask for a light.
pub trait Lightable {
    /// The color of the sun, as text, if one was given.
    spec fn color_text(&self) -> Option<Seq<char>>;

    /// The intensity of the sun, in thousandths, if one was given.
    spec fn intensity(&self) -> Option<u32>;

    fn sun_color_hex(&self) -> (hex: &Option<String>)
        ensures
            hex.is_some() == self.color_text().is_some(),
            hex matches Some(text) ==> self.color_text() == Some(text@),
    ;

    fn sols(&self) -> (sols: &Option<u32>)
        ensures
            *sols == self.intensity(),
    ;

    /// The color of the sun, if one was given.
    fn sun_color(&self) -> (color: Result<Option<Rgb>, ConfigError>)
        ensures
            color == sun_color_of(self.color_text()),
    {
        match self.sun_color_hex() {
            None => Ok(None),
            Some(text) => match parse_color(text.as_str()) {
                Ok(color) => Ok(Some(color)),
                Err(error) => Err(error),
            },
        }
    }

    /// The light that the options ask for.
    fn light(&self) -> (light: Result<Option<Light>, ConfigError>)
        ensures
            light == light_of(self.color_text(), self.intensity()),
    {
        match self.sun_color() {
            Ok(None) => Ok(None),
            Ok(Some(color)) => {
                let sols: u32 = match self.sols() {
                    Some(given) => *given,
                    None => ONE_SOL,
                };
                Ok(Some(Light { color, sols }))
            },
            Err(error) => Err(error),
        }
    }
}

/// The text of an option, if it is given.
pub open spec fn text_of(option: Option<String>) -> Option<Seq<char>> {
    match option {
        Some(text) => Some(text@),
        None => None,
    }
}

impl Lightable for Edit {
    open spec fn color_text(&self) -> Option<Seq<char>> {
        text_of(self.sun_color)
    }

    open spec fn intensity(&self) -> Option<u32> {
        self.sols
    }

    fn sun_color_hex(&self) -> (hex: &Option<String>) {
        &self.sun_color
    }

    fn sols(&self) -> (sols: &Option<u32>) {
        &self.sols
    }
}

impl Lightable for Generate {
    open spec fn color_text(&self) -> Option<Seq<char>> {
        text_of(self.sun_color)
    }

    open spec fn intensity(&self) -> Option<u32> {
        self.sols
    }

    fn sun_color_hex(&self) -> (hex: &Option<String>) {
        &self.sun_color
    }

    fn sols(&self) -> (sols: &Option<u32>) {
        &self.sols
    }
}

impl Default for NewPlanetOptions {
    fn default() -> (options: Self)
        ensures
            options.distance is None,
            options.angle is None,
            options.radius is None,
    {
        NewPlanetOptions { distance: None, angle: None, radius: None }
    }
}

impl Default for PlanetCommand {
    fn default() -> (command: Self)
        ensures
            command == PlanetCommand::New(
                NewPlanetOptions { distance: None, angle: None, radius: None },
            ),
    {
        PlanetCommand::New(NewPlanetOptions::default())
    }
}

impl Default for Generate {
    fn default() -> (options: Self)
        ensures
            options.output is None,
            options.resolution is None,
            options.repeat is None,
            options.command is None,
            options.sun_color is None,
            options.sols is None,
    {
        Generate {
            output: None,
            resolution: None,
            repeat: None,
            command: None,
            sun_color: None,
            sols: None,
        }
    }
}

impl Default for Edit {
    fn default() -> (options: Self)
        ensures
            options.resolution is None,
            options.command is None,
            options.sun_color is None,
            options.sols is None,
    {
        Edit { resolution: None, command: None, sun_color: None, sols: None }
    }
}

impl Default for Command {
    /// Without a command, an image is generated.
    fn default() -> (command: Self)
        ensures
            command matches Command::Generate(options) && options.output is None
                && options.resolution is None && options.repeat is None && options.command is None
                && options.sun_color is None && options.sols is None,
    {
        Command::Generate(Generate::default())
    }
}

/// The distance of the planet from its sun, in kilometers: the one given,
/// or else that of the Earth.
pub open spec fn distance_of(options: NewPlanetOptions) -> int {
    match options.distance {
        Some(km) => km as int,
        None => DEFAULT_DISTANCE as int,
    }
}

/// The rotation of the planet around its sun: the one given, or else the
/// default.
pub open spec fn angle_of(options: NewPlanetOptions) -> Angle {
    match options.angle {
        Some(angle) => angle,
        None => default_angle(),
    }
}

/// The radius of the planet, in kilometers: the one given, or else that of
/// the Earth.
pub open spec fn radius_of(options: NewPlanetOptions) -> int {
    match options.radius {
        Some(km) => km as int,
        None => DEFAULT_RADIUS as int,
    }
}

/// Why the options describe no planet, if they do not: the radius must be
/// positive and the angle must be a direction.
pub open spec fn planet_error(options: NewPlanetOptions) -> Option<ConfigError> {
    if radius_of(options) <= 0 {
        Some(ConfigError::Radius)
    } else if !angle_of(options).is_direction() {
        Some(ConfigError::Angle)
    } else {
        None
    }
}

/// Where the planet that the options describe lies.
pub open spec fn origin_of(options: NewPlanetOptions) -> Point {
    Point {
        x: orbit_coordinate(
            distance_of(options) * METERS_PER_KILOMETER,
            angle_of(options).cos as int,
        ) as i64,
        y: orbit_coordinate(
            distance_of(options) * METERS_PER_KILOMETER,
            angle_of(options).sin as int,
        ) as i64,
    }
}

/// Whether `planet` is the earthlike planet that the options describe, with
/// the given seed: it orbits at the distance and the angle given, or else
/// at those of the Earth.
pub open spec fn is_planet_of(options: NewPlanetOptions, seed: u128, planet: Planet<Earthlike>)
    -> bool {
    &&& planet.seed == seed
    &&& planet.radius.meters == radius_of(options) * METERS_PER_KILOMETER
    &&& planet.origin == origin_of(options)
    &&& planet.colors@ == crate::coloring::earthlike_anchors()
}

/// Whether the star stands at none of the points that an image of `pixels`
/// by `pixels` shows of the planet that the options describe.
pub open spec fn star_is_clear(options: NewPlanetOptions, pixels: u32) -> bool {
    clear_of_star(origin_of(options), radius_of(options) * METERS_PER_KILOMETER, pixels as int)
}

/// The planet that options describe orbits within the largest length.
pub proof fn lemma_origin_near(options: NewPlanetOptions)
    requires
        angle_of(options).in_range(),
    ensures
        magnitude(origin_of(options).x as int) + magnitude(origin_of(options).y as int)
            <= 2 * 2_147_483_648 * METERS_PER_KILOMETER,
{
    let d = distance_of(options) * METERS_PER_KILOMETER;
    let m = magnitude(d);
    let c = angle_of(options).cos as int;
    let s = angle_of(options).sin as int;
    assert(magnitude(d * c) <= m * 1_000_000 && magnitude(d * s) <= m * 1_000_000) by (nonlinear_arith)
        requires
            m == magnitude(d),
            -1_000_000 <= c <= 1_000_000,
            -1_000_000 <= s <= 1_000_000,
    ;
    crate::numeric::lemma_trunc_div_scaled(d * c, 1_000_000, m);
    crate::numeric::lemma_trunc_div_scaled(d * s, 1_000_000, m);
}

impl NewPlanetOptions {
    /// The earthlike planet that the options describe, with the given seed.
    pub fn into_planet(self, seed: u128) -> (planet: Result<Planet<Earthlike>, ConfigError>)
        ensures
            match planet {
                Ok(planet) => {
                    &&& planet_error(self) is None
                    &&& planet.wf()
                    &&& is_planet_of(self, seed, planet)
                },
                Err(error) => planet_error(self) == Some(error),
            },
    {
        let distance: i32 = match self.distance {
            Some(km) => km,
            None => DEFAULT_DISTANCE,
        };
        let radius: i32 = match self.radius {
            Some(km) => km,
            None => DEFAULT_RADIUS,
        };
        let angle: Angle = match self.angle {
            Some(angle) => angle,
            None => Angle { cos: -707_104, sin: -707_110 },
        };
        if radius <= 0 {
            return Err(ConfigError::Radius);
        }
        if !angle.is_a_direction() {
            return Err(ConfigError::Angle);
        }
        let origin = calculate_origin(angle, Kilometers::new(distance));
        Ok(
            Planet {
                seed,
                origin,
                radius: Kilometers::new(radius),
                colors: ElevationColor::earthlike(),
            },
        )
    }
}

} // verus!
