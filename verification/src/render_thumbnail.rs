//! The tool-path bookkeeping behind a rendered thumbnail: the printer state that
//! G-code commands change, and the extruding moves that become line segments.
//!
//! Coordinates are of a type `C` chosen by the caller; the two operations that
//! depend on it, adding an offset to a position and telling whether one value
//! is greater than another, are handed to [`RenderThumbnailVisitor::end_command`]
//! as functions. Every contract below is stated in terms of what those two
//! functions return.

use vstd::prelude::*;

use crate::text::{
    chars_of, contains_ignoring_ascii_case, matches_at_ignoring_ascii_case, padding_end, range_contains_ignoring_ascii_case,
    range_equals, range_starts_with, trim_comment,
};

verus! {

/// Mode for interpreting coordinates.
#[derive(Debug, Clone, Copy, PartialEq, Eq, Structural)]
pub enum PositionMode {
    Absolute,
    Relative,
}

/// The commands that change the printer state.
#[derive(Debug, Clone, Copy, PartialEq, Eq, Structural)]
pub enum CommandKind {
    /// Rapid positioning move.
    G0,
    /// Linear move.
    G1,
    /// Set absolute positioning mode for X/Y/Z coordinates.
    G90,
    /// Set relative positioning mode for X/Y/Z coordinates.
    G91,
    /// Set the current position without performing movement.
    G92,
    /// Set absolute extrusion mode.
    M82,
    /// Set relative extrusion mode.
    M83,
    /// Any other command, which leaves the state as it is.
    Ignore,
}

/// A point in 3D space, in millimeters from the origin.
#[derive(Debug, Clone, Copy)]
pub struct Point3D<C> {
    pub x: C,
    pub y: C,
    pub z: C,
}

/// A line segment in 3D space: a movement of the print head while extruding.
#[derive(Debug, Clone, Copy)]
pub struct Segment3D<C> {
    pub start: Point3D<C>,
    pub end: Point3D<C>,
}

/// The current printer position and modal settings.
#[derive(Debug, Clone, Copy)]
pub struct PrinterState<C> {
    /// Current X position from the origin, in millimeters.
    pub x: C,
    /// Current Y position from the origin, in millimeters.
    pub y: C,
    /// Current Z position from the origin, in millimeters.
    pub z: C,
    /// Current extrusion position, in millimeters.
    pub e: C,
    /// Current mode for interpreting X/Y/Z coordinates.
    pub distance_mode: PositionMode,
    /// Current mode for interpreting extrusion (E) values.
    pub extrusion_mode: PositionMode,
}

impl<C: Copy> PrinterState<C> {
    /// The state of a printer that has not moved: every coordinate at `zero`,
    /// both modes absolute.
    pub open spec fn spec_origin(zero: C) -> PrinterState<C> {
        PrinterState {
            x: zero,
            y: zero,
            z: zero,
            e: zero,
            distance_mode: PositionMode::Absolute,
            extrusion_mode: PositionMode::Absolute,
        }
    }

    /// The state of a printer that has not moved.
    pub fn new(zero: C) -> (s: Self)
        ensures
            s == Self::spec_origin(zero),
    {
        PrinterState {
            x: zero,
            y: zero,
            z: zero,
            e: zero,
            distance_mode: PositionMode::Absolute,
            extrusion_mode: PositionMode::Absolute,
        }
    }

    /// The position of the print head.
    pub open spec fn position(self) -> Point3D<C> {
        Point3D { x: self.x, y: self.y, z: self.z }
    }
}

/// The arguments of the current command that the state depends on.
#[derive(Debug, Clone, Copy)]
pub struct CommandArgs<C> {
    pub x: Option<C>,
    pub y: Option<C>,
    pub z: Option<C>,
    pub e: Option<C>,
}

/// A command being read: its kind and the arguments seen so far.
#[derive(Debug, Clone, Copy)]
pub struct Command<C> {
    pub kind: CommandKind,
    pub args: CommandArgs<C>,
}

/// The command that a G code with this major number stands for.
pub open spec fn general_code_kind(major: u32) -> CommandKind {
    if major == 0 {
        CommandKind::G0
    } else if major == 1 {
        CommandKind::G1
    } else if major == 90 {
        CommandKind::G90
    } else if major == 91 {
        CommandKind::G91
    } else if major == 92 {
        CommandKind::G92
    } else {
        CommandKind::Ignore
    }
}

/// The command that an M code with this major number stands for.
pub open spec fn miscellaneous_code_kind(major: u32) -> CommandKind {
    if major == 82 {
        CommandKind::M82
    } else if major == 83 {
        CommandKind::M83
    } else {
        CommandKind::Ignore
    }
}

/// The arguments after reading `letter` with `value`: X, Y, Z and E are kept,
/// any other letter and any value that is not a literal (`None`) is ignored.
pub open spec fn with_argument<C>(args: CommandArgs<C>, letter: char, value: Option<C>) -> CommandArgs<C> {
    match value {
        None => args,
        Some(v) => if letter == 'X' {
            CommandArgs { x: Some(v), ..args }
        } else if letter == 'Y' {
            CommandArgs { y: Some(v), ..args }
        } else if letter == 'Z' {
            CommandArgs { z: Some(v), ..args }
        } else if letter == 'E' {
            CommandArgs { e: Some(v), ..args }
        } else {
            args
        },
    }
}

impl<C: Copy> Command<C> {
    /// A command of this kind with no arguments yet.
    pub fn new(kind: CommandKind) -> (cmd: Self)
        ensures
            cmd.kind == kind,
            cmd.args == (CommandArgs::<C> { x: None, y: None, z: None, e: None }),
    {
        Command { kind, args: CommandArgs { x: None, y: None, z: None, e: None } }
    }

    /// Reads one argument of the command. `value` is the argument's literal
    /// value, or `None` when the argument is not a literal.
    pub fn argument(&mut self, letter: char, value: Option<C>)
        ensures
            final(self).kind == old(self).kind,
            final(self).args == with_argument(old(self).args, letter, value),
    {
        if let Some(v) = value {
            if letter == 'X' {
                self.args.x = Some(v);
            } else if letter == 'Y' {
                self.args.y = Some(v);
            } else if letter == 'Z' {
                self.args.z = Some(v);
            } else if letter == 'E' {
                self.args.e = Some(v);
            }
        }
    }
}

/// Whether `new` is where an axis at `current` ends up after an argument
/// `value` in `mode`: unchanged without a value, the value itself in absolute
/// mode, and a result of `plus(current, value)` in relative mode.
pub open spec fn axis_moved<C, A: Fn(C, C) -> C>(
    plus: A,
    current: C,
    value: Option<C>,
    mode: PositionMode,
    new: C,
) -> bool {
    match value {
        None => new == current,
        Some(v) => match mode {
            PositionMode::Absolute => new == v,
            PositionMode::Relative => call_ensures(plus, (current, v), new),
        },
    }
}

/// Computes a coordinate update according to the active mode.
/// If the value is `None`, the current position is unchanged.
pub fn apply_axis<C: Copy, A: Fn(C, C) -> C>(
    current: C,
    value: Option<C>,
    mode: PositionMode,
    plus: &A,
) -> (r: C)
    requires
        forall|a: C, b: C| call_requires(*plus, (a, b)),
    ensures
        axis_moved(*plus, current, value, mode, r),
{
    match value {
        None => current,
        Some(v) => match mode {
            PositionMode::Absolute => v,
            PositionMode::Relative => plus(current, v),
        },
    }
}

/// The value that an E argument is compared against to tell whether a move
/// extrudes: the current extrusion position in absolute mode, zero in relative
/// mode.
pub open spec fn extrusion_reference<C>(state: PrinterState<C>, zero: C) -> C {
    match state.extrusion_mode {
        PositionMode::Absolute => state.e,
        PositionMode::Relative => zero,
    }
}

/// The comment contents that mark the start of the print proper: Cura's
/// `LAYER:0` and Orca Slicer's `Filament gcode`.
pub open spec fn is_print_start_marker(content: Seq<char>) -> bool {
    content == "LAYER:0"@ || content == "Filament gcode"@
}

/// The name of the print feature that a comment starts, for slicers that mark
/// features with `TYPE:<name>` (Cura, PrusaSlicer, Orca Slicer) or
/// `FEATURE:<name>` (Bambu Studio and newer Orca Slicer).
pub open spec fn feature_name(content: Seq<char>) -> Option<Seq<char>> {
    if "TYPE:"@.is_prefix_of(content) {
        Some(content.skip("TYPE:"@.len() as int))
    } else if "FEATURE:"@.is_prefix_of(content) {
        Some(content.skip("FEATURE:"@.len() as int))
    } else {
        None
    }
}

/// Whether a feature is an adhesion helper: a skirt, a brim or a raft,
/// whatever the case of its name.
pub open spec fn is_adhesion_feature(name: Seq<char>) -> bool {
    ||| contains_ignoring_ascii_case(name, "skirt"@)
    ||| contains_ignoring_ascii_case(name, "brim"@)
    ||| contains_ignoring_ascii_case(name, "raft"@)
}

/// The code of `c` with ASCII upper-case letters made lower-case.
pub open spec fn ascii_lowercase_code(c: char) -> u32 {
    let n = c as u32;
    if 0x41 <= n <= 0x5a {
        (n + 32) as u32
    } else {
        n
    }
}

/// Whether the lower-case `word` stands at position `i` of `name` once `name`
/// is lower-cased.
pub open spec fn word_at(name: Seq<char>, i: int, word: Seq<char>) -> bool {
    &&& 0 <= i
    &&& i + word.len() <= name.len()
    &&& forall|j: int|
        0 <= j < word.len() ==> ascii_lowercase_code(#[trigger] name[i + j]) == (word[j] as u32)
}

/// Whether the lower-case `word` occurs in `name` once `name` is lower-cased.
pub open spec fn has_word(name: Seq<char>, word: Seq<char>) -> bool {
    exists|i: int| #[trigger] word_at(name, i, word)
}

proof fn lemma_has_word(name: Seq<char>, word: Seq<char>)
    requires
        forall|j: int| 0 <= j < word.len() ==> 0x61 <= (#[trigger] word[j] as u32) <= 0x7a,
    ensures
        contains_ignoring_ascii_case(name, word) <==> has_word(name, word),
{
    if contains_ignoring_ascii_case(name, word) {
        let i = choose|i: int| matches_at_ignoring_ascii_case(name, i, word);
        assert forall|j: int| 0 <= j < word.len() implies ascii_lowercase_code(#[trigger] name[i + j])
            == (word[j] as u32) by {
            assert(0x61 <= (word[j] as u32) <= 0x7a);
        }
        assert(word_at(name, i, word));
    }
    if has_word(name, word) {
        let i = choose|i: int| #[trigger] word_at(name, i, word);
        assert forall|j: int| 0 <= j < word.len() implies
            crate::text::same_letter_ignoring_ascii_case(#[trigger] name[i + j], word[j]) by {
            assert(ascii_lowercase_code(name[i + j]) == (word[j] as u32));
            assert(0x61 <= (word[j] as u32) <= 0x7a);
        }
        assert(matches_at_ignoring_ascii_case(name, i, word));
    }
}

/// The adhesion helpers are the features named after a skirt, a brim or a
/// raft: a feature is one exactly when its name, read without regard to ASCII
/// case, holds one of the words `skirt`, `brim` or `raft`.
pub proof fn lemma_adhesion_features(name: Seq<char>)
    ensures
        is_adhesion_feature(name) <==> (has_word(name, seq!['s', 'k', 'i', 'r', 't']) || has_word(
            name,
            seq!['b', 'r', 'i', 'm'],
        ) || has_word(name, seq!['r', 'a', 'f', 't'])),
{
    reveal_strlit("skirt");
    reveal_strlit("brim");
    reveal_strlit("raft");
    assert("skirt"@ =~= seq!['s', 'k', 'i', 'r', 't']);
    assert("brim"@ =~= seq!['b', 'r', 'i', 'm']);
    assert("raft"@ =~= seq!['r', 'a', 'f', 't']);
    lemma_has_word(name, "skirt"@);
    lemma_has_word(name, "brim"@);
    lemma_has_word(name, "raft"@);
}

/// Follows the G-code of a print and collects the extruding moves as segments.
pub struct RenderThumbnailVisitor<C> {
    /// The printer state after the commands read so far.
    pub state: PrinterState<C>,
    /// The extruding moves, in order.
    pub segments: Vec<Segment3D<C>>,
    /// Whether the segments before the start-of-print marker are still to be
    /// dropped when that marker comes.
    pub ignore_priming_line: bool,
    /// Whether extruding moves inside a skirt, brim or raft are left out.
    pub ignore_adhesion: bool,
    /// Whether the commands being read belong to a skirt, brim or raft.
    pub in_adhesion: bool,
    /// The zero of the coordinate type.
    pub zero: C,
}

impl<C: Copy> RenderThumbnailVisitor<C> {
    /// A visitor that has read nothing, for coordinates whose zero is `zero`.
    pub fn new(ignore_priming_line: bool, ignore_adhesion: bool, zero: C) -> (v: Self)
        ensures
            v.state == PrinterState::<C>::spec_origin(zero),
            v.segments@ == Seq::<Segment3D<C>>::empty(),
            v.ignore_priming_line == ignore_priming_line,
            v.ignore_adhesion == ignore_adhesion,
            !v.in_adhesion,
            v.zero == zero,
    {
        RenderThumbnailVisitor {
            state: PrinterState::new(zero),
            segments: Vec::new(),
            ignore_priming_line,
            ignore_adhesion,
            in_adhesion: false,
            zero,
        }
    }

    /// Reads one comment. While the priming line is to be ignored, the
    /// start-of-print marker drops all segments collected so far, and the
    /// marker is not looked for any more after it; the return value tells
    /// whether that happened. A feature comment (`TYPE:` or `FEATURE:`) tells
    /// whether the following moves belong to a skirt, brim or raft.
    pub fn comment(&mut self, value: &str) -> (start: bool)
        ensures
            start == (old(self).ignore_priming_line && is_print_start_marker(
                trim_comment(value@),
            )),
            final(self).state == old(self).state,
            final(self).zero == old(self).zero,
            final(self).ignore_adhesion == old(self).ignore_adhesion,
            final(self).in_adhesion == match feature_name(trim_comment(value@)) {
                Some(name) => is_adhesion_feature(name),
                None => old(self).in_adhesion,
            },
            start ==> final(self).segments@ == Seq::<Segment3D<C>>::empty()
                && !final(self).ignore_priming_line,
            !start ==> final(self).segments@ == old(self).segments@
                && final(self).ignore_priming_line == old(self).ignore_priming_line,
    {
        let chars = chars_of(value);
        let n = chars.len();
        let k = padding_end(&chars);
        let ghost content = trim_comment(value@);
        assert(content =~= chars@.subrange(k as int, n as int));
        let mut start = false;
        if self.ignore_priming_line {
            let cura = chars_of("LAYER:0");
            let orca = chars_of("Filament gcode");
            if range_equals(&chars, k, n, &cura) || range_equals(&chars, k, n, &orca) {
                self.segments.clear();
                self.ignore_priming_line = false;
                start = true;
            }
        }
        let type_marker = chars_of("TYPE:");
        let feature_marker = chars_of("FEATURE:");
        let name_start = if range_starts_with(&chars, k, n, &type_marker) {
            Some(k + type_marker.len())
        } else if range_starts_with(&chars, k, n, &feature_marker) {
            Some(k + feature_marker.len())
        } else {
            None
        };
        if let Some(from) = name_start {
            assert(chars@.subrange(from as int, n as int) =~= feature_name(content)->0);
            let skirt = chars_of("skirt");
            let brim = chars_of("brim");
            let raft = chars_of("raft");
            self.in_adhesion = range_contains_ignoring_ascii_case(&chars, from, n, &skirt)
                || range_contains_ignoring_ascii_case(&chars, from, n, &brim)
                || range_contains_ignoring_ascii_case(&chars, from, n, &raft);
        }
        start
    }

    /// The command that a G code with this major number starts.
    pub fn start_general_code(&self, major: u32) -> (cmd: Command<C>)
        ensures
            cmd.kind == general_code_kind(major),
            cmd.args == (CommandArgs::<C> { x: None, y: None, z: None, e: None }),
    {
        let kind = if major == 0 {
            CommandKind::G0
        } else if major == 1 {
            CommandKind::G1
        } else if major == 90 {
            CommandKind::G90
        } else if major == 91 {
            CommandKind::G91
        } else if major == 92 {
            CommandKind::G92
        } else {
            CommandKind::Ignore
        };
        Command::new(kind)
    }

    /// The command that an M code with this major number starts.
    pub fn start_miscellaneous_code(&self, major: u32) -> (cmd: Command<C>)
        ensures
            cmd.kind == miscellaneous_code_kind(major),
            cmd.args == (CommandArgs::<C> { x: None, y: None, z: None, e: None }),
    {
        let kind = if major == 82 {
            CommandKind::M82
        } else if major == 83 {
            CommandKind::M83
        } else {
            CommandKind::Ignore
        };
        Command::new(kind)
    }

    /// Carries out a command once all its arguments are read.
    ///
    /// G0 and G1 move each axis with [`apply_axis`]; the move becomes a segment
    /// from the old to the new position when it extrudes, that is when its E
    /// value is greater (by `greater`) than the current extrusion position in
    /// absolute extrusion mode, or than zero in relative extrusion mode, unless
    /// it belongs to a skirt, brim or raft that is to be left out.
    /// G90, G91, M82 and M83 set a mode, G92 sets the given coordinates, and
    /// other commands change nothing.
    pub fn end_command<A: Fn(C, C) -> C, G: Fn(C, C) -> bool>(
        &mut self,
        command: Command<C>,
        plus: A,
        greater: G,
    )
        requires
            forall|a: C, b: C| call_requires(plus, (a, b)),
            forall|a: C, b: C| call_requires(greater, (a, b)),
        ensures
            final(self).zero == old(self).zero,
            final(self).ignore_priming_line == old(self).ignore_priming_line,
            final(self).ignore_adhesion == old(self).ignore_adhesion,
            final(self).in_adhesion == old(self).in_adhesion,
            ({
                let old_state = old(self).state;
                let new_state = final(self).state;
                let args = command.args;
                match command.kind {
                    CommandKind::G0 | CommandKind::G1 => {
                        let segment = Segment3D {
                            start: old_state.position(),
                            end: new_state.position(),
                        };
                        let reference = extrusion_reference(old_state, old(self).zero);
                        let left_out = old(self).ignore_adhesion && old(self).in_adhesion;
                        &&& axis_moved(plus, old_state.x, args.x, old_state.distance_mode, new_state.x)
                        &&& axis_moved(plus, old_state.y, args.y, old_state.distance_mode, new_state.y)
                        &&& axis_moved(plus, old_state.z, args.z, old_state.distance_mode, new_state.z)
                        &&& axis_moved(plus, old_state.e, args.e, old_state.extrusion_mode, new_state.e)
                        &&& new_state.distance_mode == old_state.distance_mode
                        &&& new_state.extrusion_mode == old_state.extrusion_mode
                        &&& (final(self).segments@ == old(self).segments@.push(segment) && !left_out
                            && args.e is Some && call_ensures(greater, (args.e->0, reference), true))
                            || (final(self).segments@ == old(self).segments@ && (left_out
                            || args.e is None || call_ensures(
                            greater,
                            (args.e->0, reference),
                            false,
                        )))
                    },
                    CommandKind::G90 => new_state == PrinterState {
                        distance_mode: PositionMode::Absolute,
                        ..old_state
                    } && final(self).segments@ == old(self).segments@,
                    CommandKind::G91 => new_state == PrinterState {
                        distance_mode: PositionMode::Relative,
                        ..old_state
                    } && final(self).segments@ == old(self).segments@,
                    CommandKind::M82 => new_state == PrinterState {
                        extrusion_mode: PositionMode::Absolute,
                        ..old_state
                    } && final(self).segments@ == old(self).segments@,
                    CommandKind::M83 => new_state == PrinterState {
                        extrusion_mode: PositionMode::Relative,
                        ..old_state
                    } && final(self).segments@ == old(self).segments@,
                    CommandKind::G92 => new_state == PrinterState {
                        x: match args.x {
                            Some(v) => v,
                            None => old_state.x,
                        },
                        y: match args.y {
                            Some(v) => v,
                            None => old_state.y,
                        },
                        z: match args.z {
                            Some(v) => v,
                            None => old_state.z,
                        },
                        e: match args.e {
                            Some(v) => v,
                            None => old_state.e,
                        },
                        ..old_state
                    } && final(self).segments@ == old(self).segments@,
                    CommandKind::Ignore => new_state == old_state && final(self).segments@ == old(
                        self,
                    ).segments@,
                }
            }),
    {
        let args = command.args;
        match command.kind {
            CommandKind::Ignore => {},
            CommandKind::G0 | CommandKind::G1 => {
                let old = self.state;
                let reference = match old.extrusion_mode {
                    PositionMode::Absolute => old.e,
                    PositionMode::Relative => self.zero,
                };
                let extruding = match args.e {
                    Some(e) => greater(e, reference),
                    None => false,
                };
                let x = apply_axis(old.x, args.x, old.distance_mode, &plus);
                let y = apply_axis(old.y, args.y, old.distance_mode, &plus);
                let z = apply_axis(old.z, args.z, old.distance_mode, &plus);
                let e = apply_axis(old.e, args.e, old.extrusion_mode, &plus);
                self.state = PrinterState { x, y, z, e, ..old };
                if extruding && !(self.ignore_adhesion && self.in_adhesion) {
                    self.segments.push(
                        Segment3D {
                            start: Point3D { x: old.x, y: old.y, z: old.z },
                            end: Point3D { x, y, z },
                        },
                    );
                }
            },
            CommandKind::G90 => {
                self.state.distance_mode = PositionMode::Absolute;
            },
            CommandKind::G91 => {
                self.state.distance_mode = PositionMode::Relative;
            },
            CommandKind::M82 => {
                self.state.extrusion_mode = PositionMode::Absolute;
            },
            CommandKind::M83 => {
                self.state.extrusion_mode = PositionMode::Relative;
            },
            CommandKind::G92 => {
                if let Some(x) = args.x {
                    self.state.x = x;
                }
                if let Some(y) = args.y {
                    self.state.y = y;
                }
                if let Some(z) = args.z {
                    self.state.z = z;
                }
                if let Some(e) = args.e {
                    self.state.e = e;
                }
            },
        }
    }
}

} // verus!
