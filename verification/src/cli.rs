//! What the command line asks for.
//!
//! The options arrive as plain values.  They are turned into a job, whose
//! parts have been checked, for the caller to carry out.

use vstd::prelude::*;
use crate::cli::args::{
    Args, Command, ConfigError, Edit, Generate, Lightable, NewPlanetOptions, PlanetCommand,
    DEFAULT_RESOLUTION, is_planet_of, light_of, planet_error, star_is_clear, text_of,
};
use crate::coloring::Earthlike;
use crate::editor::window::EditorWindow;
use crate::lighting::Light;
use crate::planet::Planet;
use crate::raster::MAX_RESOLUTION;

pub mod args;

verus! {

/// One image to be generated and written.
pub struct Rendering {
    pub planet: Planet<Earthlike>,
    /// The side of the image, in pixels.
    pub resolution: u32,
    pub light: Option<Light>,
    /// The path that the image is written to.
    pub output: String,
    /// After how many milliseconds another image is to be generated.
    pub repeat: Option<u32>,
}

/// What is to be done.
pub enum Job {
    Edit(EditorWindow),
    Generate(Rendering),
}

/// The options of the planet that a command asks for.
pub open spec fn planet_options_of(command: Option<PlanetCommand>) -> NewPlanetOptions {
    match command {
        Some(PlanetCommand::New(options)) => options,
        None => NewPlanetOptions { distance: None, angle: None, radius: None },
    }
}

/// The resolution that is asked for, or else the default.
pub open spec fn resolution_of(resolution: Option<u32>) -> u32 {
    match resolution {
        Some(pixels) => pixels,
        None => DEFAULT_RESOLUTION,
    }
}

/// Why nothing can be generated, if so.  The light is looked at first, then
/// the resolution, then the planet, and last whether the star, if it
/// shines, stands at a point that the image shows.
pub open spec fn plan_error(
    command: Option<PlanetCommand>,
    resolution: Option<u32>,
    light: Result<Option<Light>, ConfigError>,
) -> Option<ConfigError> {
    let options = planet_options_of(command);
    match light {
        Err(error) => Some(error),
        Ok(sun) => if resolution_of(resolution) > MAX_RESOLUTION {
            Some(ConfigError::Resolution)
        } else if planet_error(options) is Some {
            planet_error(options)
        } else if sun is Some && !star_is_clear(options, resolution_of(resolution)) {
            Some(ConfigError::Distance)
        } else {
            None
        },
    }
}

/// Whether the planet, the resolution and the light are those that the
/// options stand for.
pub open spec fn is_plan_of(
    command: Option<PlanetCommand>,
    resolution: Option<u32>,
    light: Result<Option<Light>, ConfigError>,
    seed: u128,
    planet: Planet<Earthlike>,
    pixels: u32,
    sun: Option<Light>,
) -> bool {
    &&& light == Ok::<Option<Light>, ConfigError>(sun)
    &&& pixels == resolution_of(resolution)
    &&& is_planet_of(planet_options_of(command), seed, planet)
    &&& planet.wf()
    &&& pixels <= MAX_RESOLUTION
    &&& sun is Some ==> planet.clear_of_star(pixels)
}

/// The planet, the resolution and the light that options stand for.
pub fn plan(
    command: &Option<PlanetCommand>,
    resolution: &Option<u32>,
    light: Result<Option<Light>, ConfigError>,
    seed: u128,
) -> (planned: Result<(Planet<Earthlike>, u32, Option<Light>), ConfigError>)
    ensures
        match planned {
            Ok((planet, pixels, sun)) => plan_error(*command, *resolution, light) is None
                && is_plan_of(*command, *resolution, light, seed, planet, pixels, sun),
            Err(error) => plan_error(*command, *resolution, light) == Some(error),
        },
{
    let sun: Option<Light> = match light {
        Ok(sun) => sun,
        Err(error) => {
            return Err(error);
        },
    };
    let pixels: u32 = match resolution {
        Some(pixels) => *pixels,
        None => DEFAULT_RESOLUTION,
    };
    if pixels > MAX_RESOLUTION {
        return Err(ConfigError::Resolution);
    }
    let options: NewPlanetOptions = match command {
        Some(PlanetCommand::New(options)) => *options,
        None => NewPlanetOptions::default(),
    };
    let planet: Planet<Earthlike> = match options.into_planet(seed) {
        Ok(planet) => planet,
        Err(error) => {
            return Err(error);
        },
    };
    if sun.is_some() && !planet.is_clear_of_star(pixels) {
        return Err(ConfigError::Distance);
    }
    Ok((planet, pixels, sun))
}

impl Rendering {
    /// Whether the planet can be generated as the rendering says.
    pub open spec fn wf(&self) -> bool {
        &&& self.planet.wf()
        &&& self.resolution <= MAX_RESOLUTION
        &&& self.light is Some ==> self.planet.clear_of_star(self.resolution)
    }
}

/// The path that an image is written to where none is given.
pub open spec fn default_output() -> Seq<char> {
    "output.png"@
}

/// The path that the image is written to.
pub open spec fn output_of(output: Option<String>) -> Seq<char> {
    match output {
        Some(path) => path@,
        None => default_output(),
    }
}

/// Why no image can be generated as the options ask, if so.
pub open spec fn generate_error(options: Generate) -> Option<ConfigError> {
    plan_error(options.command, options.resolution, light_of(text_of(options.sun_color), options.sols))
}

/// Whether `rendering` is what the options ask for, on a planet with the
/// given seed.
pub open spec fn is_rendering_of(options: Generate, seed: u128, rendering: Rendering) -> bool {
    &&& is_plan_of(
        options.command,
        options.resolution,
        light_of(text_of(options.sun_color), options.sols),
        seed,
        rendering.planet,
        rendering.resolution,
        rendering.light,
    )
    &&& rendering.wf()
    &&& rendering.output@ == output_of(options.output)
    &&& rendering.repeat == options.repeat
}

/// Plans one image of a new planet with the given seed.
///
/// The caller generates the image, writes it, and, where the rendering
/// says so, waits and asks for the next plan with a new seed.
pub fn generate(options: &Generate, seed: u128) -> (planned: Result<Rendering, ConfigError>)
    ensures
        match planned {
            Ok(rendering) => generate_error(*options) is None && is_rendering_of(
                *options,
                seed,
                rendering,
            ),
            Err(error) => generate_error(*options) == Some(error),
        },
{
    let light = options.light();
    match plan(&options.command, &options.resolution, light, seed) {
        Err(error) => Err(error),
        Ok((planet, resolution, light)) => {
            let output: String = match &options.output {
                Some(path) => path.clone(),
                None => "output.png".to_owned(),
            };
            Ok(Rendering { planet, resolution, light, output, repeat: options.repeat })
        },
    }
}

/// The options that stand for no options at all.
pub open spec fn no_options() -> Generate {
    Generate { output: None, resolution: None, repeat: None, command: None, sun_color: None, sols: None }
}

/// Why the arguments cannot be carried out, if so.
pub open spec fn run_error(args: Args) -> Option<ConfigError> {
    match args.command {
        Some(Command::Edit(edit)) => crate::editor::window::window_error(edit),
        Some(Command::Generate(options)) => generate_error(options),
        None => generate_error(no_options()),
    }
}

/// Whether `job` is what the arguments ask for: an editor for the command
/// to edit, and else an image, also where no command is given.
pub open spec fn is_job_of(args: Args, seed: u128, job: Job) -> bool {
    match args.command {
        Some(Command::Edit(edit)) => job matches Job::Edit(window)
            && crate::editor::window::is_window_of(edit, seed, window),
        Some(Command::Generate(options)) => job matches Job::Generate(rendering) && is_rendering_of(
            options,
            seed,
            rendering,
        ),
        None => job matches Job::Generate(rendering) && is_rendering_of(no_options(), seed, rendering),
    }
}

/// Turns the arguments of the command line into the job that they ask for.
/// `seed` is the seed of the planet.
pub fn run(args: Args, seed: u128) -> (job: Result<Job, ConfigError>)
    ensures
        match job {
            Ok(job) => run_error(args) is None && is_job_of(args, seed, job),
            Err(error) => run_error(args) == Some(error),
        },
{
    let command: Command = match args.command {
        Some(command) => command,
        None => Command::default(),
    };
    match command {
        Command::Edit(edit) => match EditorWindow::new(edit, seed) {
            Ok(window) => Ok(Job::Edit(window)),
            Err(error) => Err(error),
        },
        Command::Generate(options) => match generate(&options, seed) {
            Ok(rendering) => Ok(Job::Generate(rendering)),
            Err(error) => Err(error),
        },
    }
}

} // verus!
