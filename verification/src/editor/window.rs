//! The editor: one planet, the way it is shown, and what the messages and
//! the mouse do to it.

use vstd::prelude::*;
use crate::cli::args::{ConfigError, Edit, Lightable, light_of, text_of};
use crate::cli::{is_plan_of, plan, plan_error};
use crate::coloring::Earthlike;
use crate::curve::TransferCurve;
use crate::elevation::Strategy;
use crate::lighting::Light;
use crate::numeric::{hypot, hypotenuse};
use crate::planet::{GeneratedPlanet, Planet, calculate_origin, lemma_orbit_kept, orbit_coordinate};
use crate::raster::MAX_RESOLUTION;
use crate::types::{Angle, Length, Point, MAX_LENGTH};

verus! {

/// What the editor shows: a planet, the size of its image and its light.
pub struct EditorWindow {
    pub planet: Planet<Earthlike>,
    pub resolution: u32,
    pub light: Option<Light>,
}

/// What the widgets of the editor tell it.
#[derive(Clone, Copy, Debug, PartialEq, Eq, Structural)]
pub enum EditorMessage {
    NewSeed,
}

/// What the editor is asked to do.
#[derive(Clone, Copy, Debug, PartialEq, Eq, Structural)]
pub enum EditorCommand {
    RegenerateImage,
}

/// Whether the window has dealt with an event.
#[derive(Clone, Copy, Debug, PartialEq, Eq, Structural)]
pub enum EventStatus {
    Ignored,
    Processed,
}

/// How long the editor waits for the mouse to rest before it generates a
/// new image, in milliseconds.
pub const REGENERATE_DELAY: u64 = 50;

/// The commands that wait to be carried out: requests that follow one
/// another quickly are carried out as one.
#[derive(Clone, Copy, Debug, PartialEq, Eq, Structural)]
pub struct Throttle {
    /// How long a request waits, in milliseconds.
    pub delay: u64,
    /// When the waiting request is due, if one waits.
    pub due: Option<u64>,
}

impl Throttle {
    /// A throttle on which nothing waits.
    pub fn new(delay: u64) -> (throttle: Throttle)
        ensures
            throttle == (Throttle { delay, due: None }),
    {
        Throttle { delay, due: None }
    }

    /// When a request made at `now` is due: after the delay, or at the end
    /// of time if that comes first.
    pub open spec fn due_after(self, now: u64) -> u64 {
        if now + self.delay > u64::MAX {
            u64::MAX
        } else {
            (now + self.delay) as u64
        }
    }

    /// Takes a request at the time `now`.  Where none is waiting, the
    /// request waits for the delay.  Where one is waiting, the request is
    /// taken up into it, and is due when that one is.
    pub fn send(&mut self, command: EditorCommand, now: u64)
        ensures
            final(self).delay == old(self).delay,
            final(self).due == match old(self).due {
                Some(due) => Some(due),
                None => Some(old(self).due_after(now)),
            },
    {
        match command {
            EditorCommand::RegenerateImage => {
                if self.due.is_none() {
                    self.due = Some(
                        if now > u64::MAX - self.delay {
                            u64::MAX
                        } else {
                            now + self.delay
                        },
                    );
                }
            },
        }
    }

    /// Hands out the waiting request once it is due.
    pub fn poll(&mut self, now: u64) -> (command: Option<EditorCommand>)
        ensures
            final(self).delay == old(self).delay,
            match old(self).due {
                Some(due) if due <= now => command == Some(EditorCommand::RegenerateImage)
                    && final(self).due is None,
                _ => command is None && final(self).due == old(self).due,
            },
    {
        match self.due {
            Some(due) => {
                if due <= now {
                    self.due = None;
                    Some(EditorCommand::RegenerateImage)
                } else {
                    None
                }
            },
            None => None,
        }
    }
}

/// A place in the window, in its own units.
#[derive(Clone, Copy, Debug, PartialEq, Eq, Structural)]
pub struct WindowPosition {
    pub x: i32,
    pub y: i32,
}

/// The largest magnitude of a coordinate of a place in the window.
pub const MAX_POSITION: i32 = 0x3fff_ffff;

impl WindowPosition {
    /// Whether the place can be told apart from every other by a difference.
    pub open spec fn in_range(self) -> bool {
        &&& -MAX_POSITION <= self.x <= MAX_POSITION
        &&& -MAX_POSITION <= self.y <= MAX_POSITION
    }
}

/// Why no editor can be opened as the options ask, if so.
pub open spec fn window_error(options: Edit) -> Option<ConfigError> {
    plan_error(options.command, options.resolution, light_of(text_of(options.sun_color), options.sols))
}

/// Whether `window` is the editor that the options ask for, on a planet
/// with the given seed.
pub open spec fn is_window_of(options: Edit, seed: u128, window: EditorWindow) -> bool {
    &&& is_plan_of(
        options.command,
        options.resolution,
        light_of(text_of(options.sun_color), options.sols),
        seed,
        window.planet,
        window.resolution,
        window.light,
    )
    &&& window.wf()
}

impl EditorWindow {
    /// Whether the planet can be shown: it is well formed, it orbits no
    /// farther away than the largest length, and the image is no larger
    /// than an image can be.
    pub open spec fn wf(&self) -> bool {
        &&& self.planet.wf()
        &&& self.resolution <= MAX_RESOLUTION
        &&& hypotenuse(self.planet.origin.x as int, self.planet.origin.y as int) <= MAX_LENGTH
    }

    /// Tells whether the planet can be shown.
    pub fn is_well_formed(&self) -> (well_formed: bool)
        ensures
            well_formed == self.wf(),
    {
        self.planet.is_well_formed() && self.resolution <= MAX_RESOLUTION && hypot(
            self.planet.origin.x,
            self.planet.origin.y,
        ) <= MAX_LENGTH
    }

    /// The editor that the options ask for, on a planet with the given seed.
    pub fn new(options: Edit, seed: u128) -> (window: Result<Self, ConfigError>)
        ensures
            match window {
                Ok(window) => window_error(options) is None && is_window_of(options, seed, window),
                Err(error) => window_error(options) == Some(error),
            },
    {
        let light = options.light();
        match plan(&options.command, &options.resolution, light, seed) {
            Err(error) => Err(error),
            Ok((planet, resolution, light)) => {
                proof {
                    crate::numeric::lemma_hypotenuse_bounds(
                        planet.origin.x as int,
                        planet.origin.y as int,
                    );
                    crate::cli::args::lemma_origin_near(
                        crate::cli::planet_options_of(options.command),
                    );
                }
                Ok(EditorWindow { planet, resolution, light })
            },
        }
    }

    /// The image of the planet as it is now, with an elevation field of the
    /// kind asked for; `noise` is as `Planet::generate` takes it.  There is
    /// no image while the light is on and the star stands at a point that
    /// the image would show.
    pub fn generate_image(&self, strategy: Strategy, noise: &Vec<i32>, curve: &TransferCurve) -> (image:
        Option<GeneratedPlanet<Earthlike>>)
        requires
            self.wf(),
            curve.wf(),
            strategy == Strategy::Noise ==> noise.len() == self.resolution * self.resolution,
        ensures
            image is Some <==> (self.light is Some ==> self.planet.clear_of_star(self.resolution)),
            image matches Some(generated) ==> self.planet.shows(
                generated,
                self.resolution,
                self.light,
                strategy,
                noise@,
                curve@,
            ),
    {
        if self.light.is_some() && !self.planet.is_clear_of_star(self.resolution) {
            None
        } else {
            Some(self.planet.generate(self.resolution, &self.light, strategy, noise, curve))
        }
    }

    /// The direction from the middle of the window to a place in it.
    pub open spec fn direction_of(window_position: WindowPosition, center: WindowPosition) -> Angle {
        Angle::toward_of(window_position.x - center.x, window_position.y - center.y)
    }

    /// The origin after the planet has been turned along its orbit: the
    /// angle of the orbit is the given direction, and the distance from the
    /// star is kept.
    pub open spec fn moved_origin(origin: Point, direction: Angle) -> Point {
        let radius = hypotenuse(origin.x as int, origin.y as int);
        Point {
            x: orbit_coordinate(radius, direction.cos as int) as i64,
            y: orbit_coordinate(radius, direction.sin as int) as i64,
        }
    }

    /// Turns the planet along its orbit, and asks for a new image.  The
    /// angle of the orbit becomes the direction in which `window_position`
    /// lies from `center`, the middle of the window; the distance from the
    /// star is kept.
    pub fn set_origin(&mut self, window_position: WindowPosition, center: WindowPosition) -> (command:
        EditorCommand)
        requires
            old(self).wf(),
            window_position.in_range(),
            center.in_range(),
        ensures
            final(self).wf(),
            final(self).planet.origin == Self::moved_origin(
                old(self).planet.origin,
                Self::direction_of(window_position, center),
            ),
            final(self).planet.seed == old(self).planet.seed,
            final(self).planet.radius == old(self).planet.radius,
            final(self).planet.colors == old(self).planet.colors,
            final(self).resolution == old(self).resolution,
            final(self).light == old(self).light,
            command == EditorCommand::RegenerateImage,
    {
        let radius: i64 = hypot(self.planet.origin.x, self.planet.origin.y);
        let angle: Angle = Angle::toward(window_position.x - center.x, window_position.y - center.y);
        proof {
            lemma_orbit_kept(radius as int, angle);
        }
        self.planet.origin = calculate_origin(angle, Length { meters: radius });
        EditorCommand::RegenerateImage
    }

    /// The title of the window.
    pub fn window_title() -> (title: String)
        ensures
            title@ == "Magrathea"@,
    {
        "Magrathea".to_owned()
    }

    /// Takes a message: a new seed replaces the seed of the planet, and a
    /// new image is asked for.
    pub fn receive_message(&mut self, message: EditorMessage, seed: u128) -> (command: EditorCommand)
        ensures
            old(self).wf() ==> final(self).wf(),
            final(self).planet.seed == seed,
            final(self).planet.origin == old(self).planet.origin,
            final(self).planet.radius == old(self).planet.radius,
            final(self).planet.colors == old(self).planet.colors,
            final(self).resolution == old(self).resolution,
            final(self).light == old(self).light,
            command == EditorCommand::RegenerateImage,
    {
        match message {
            EditorMessage::NewSeed => {
                self.planet.seed = seed;
            },
        }
        EditorCommand::RegenerateImage
    }

    /// Carries out a command: a new image is generated, as `generate_image`
    /// does.
    pub fn receive_input(
        &self,
        command: EditorCommand,
        strategy: Strategy,
        noise: &Vec<i32>,
        curve: &TransferCurve,
    ) -> (image: Option<GeneratedPlanet<Earthlike>>)
        requires
            self.wf(),
            curve.wf(),
            strategy == Strategy::Noise ==> noise.len() == self.resolution * self.resolution,
        ensures
            image is Some <==> (self.light is Some ==> self.planet.clear_of_star(self.resolution)),
            image matches Some(generated) ==> self.planet.shows(
                generated,
                self.resolution,
                self.light,
                strategy,
                noise@,
                curve@,
            ),
    {
        match command {
            EditorCommand::RegenerateImage => self.generate_image(strategy, noise, curve),
        }
    }

    /// The mouse was pressed at a place in the window: the planet is turned
    /// along its orbit, as `set_origin` does.
    pub fn mouse_down(&mut self, window_position: WindowPosition, center: WindowPosition) -> (done: (
        EventStatus,
        EditorCommand,
    ))
        requires
            old(self).wf(),
            window_position.in_range(),
            center.in_range(),
        ensures
            final(self).wf(),
            final(self).planet.origin == Self::moved_origin(
                old(self).planet.origin,
                Self::direction_of(window_position, center),
            ),
            final(self).planet.seed == old(self).planet.seed,
            final(self).planet.radius == old(self).planet.radius,
            final(self).planet.colors == old(self).planet.colors,
            final(self).resolution == old(self).resolution,
            final(self).light == old(self).light,
            done == (EventStatus::Processed, EditorCommand::RegenerateImage),
    {
        let command = self.set_origin(window_position, center);
        (EventStatus::Processed, command)
    }

    /// The mouse was dragged: to a place in the window, and the planet is
    /// turned along its orbit, or out of the window, and nothing happens.
    pub fn mouse_drag(&mut self, window_position: Option<WindowPosition>, center: WindowPosition) -> (command:
        Option<EditorCommand>)
        requires
            old(self).wf(),
            window_position matches Some(position) ==> position.in_range(),
            center.in_range(),
        ensures
            final(self).wf(),
            match window_position {
                Some(position) => final(self).planet.origin == Self::moved_origin(
                    old(self).planet.origin,
                    Self::direction_of(position, center),
                ) && command == Some(EditorCommand::RegenerateImage),
                None => final(self).planet.origin == old(self).planet.origin && command is None,
            },
            final(self).planet.seed == old(self).planet.seed,
            final(self).planet.radius == old(self).planet.radius,
            final(self).planet.colors == old(self).planet.colors,
            final(self).resolution == old(self).resolution,
            final(self).light == old(self).light,
    {
        match window_position {
            Some(position) => Some(self.set_origin(position, center)),
            None => None,
        }
    }
}

} // verus!
