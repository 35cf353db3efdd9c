use gcode_thumbnailer::render_thumbnail::{
    apply_axis, Command, CommandKind, PositionMode, RenderThumbnailVisitor,
};

/// Drives a `RenderThumbnailVisitor<f32>` from the G-code parser.
struct Driver<'a> {
    diagnostics: gcode::core::Noop,
    visitor: &'a mut RenderThumbnailVisitor<f32>,
}

impl gcode::core::HasDiagnostics for Driver<'_> {
    fn diagnostics(&mut self) -> &mut dyn gcode::core::Diagnostics {
        &mut self.diagnostics
    }
}

impl gcode::core::ProgramVisitor for Driver<'_> {
    fn start_block(&mut self) -> gcode::core::ControlFlow<impl gcode::core::BlockVisitor + '_> {
        gcode::core::ControlFlow::Continue(Block {
            diagnostics: gcode::core::Noop,
            visitor: &mut *self.visitor,
        })
    }
}

struct Block<'a> {
    diagnostics: gcode::core::Noop,
    visitor: &'a mut RenderThumbnailVisitor<f32>,
}

impl gcode::core::HasDiagnostics for Block<'_> {
    fn diagnostics(&mut self) -> &mut dyn gcode::core::Diagnostics {
        &mut self.diagnostics
    }
}

impl gcode::core::BlockVisitor for Block<'_> {
    fn comment(&mut self, value: &str, _span: gcode::core::Span) {
        self.visitor.comment(value);
    }

    fn start_general_code(&mut self, number: gcode::core::Number) -> gcode::core::ControlFlow<impl gcode::core::CommandVisitor + '_> {
        let command = self.visitor.start_general_code(number.major());
        gcode::core::ControlFlow::Continue(Cmd {
            diagnostics: gcode::core::Noop,
            visitor: &mut *self.visitor,
            command,
        })
    }

    fn start_miscellaneous_code(
        &mut self,
        number: gcode::core::Number,
    ) -> gcode::core::ControlFlow<impl gcode::core::CommandVisitor + '_> {
        let command = self.visitor.start_miscellaneous_code(number.major());
        gcode::core::ControlFlow::Continue(Cmd {
            diagnostics: gcode::core::Noop,
            visitor: &mut *self.visitor,
            command,
        })
    }
}

struct Cmd<'a> {
    diagnostics: gcode::core::Noop,
    visitor: &'a mut RenderThumbnailVisitor<f32>,
    command: Command<f32>,
}

impl gcode::core::HasDiagnostics for Cmd<'_> {
    fn diagnostics(&mut self) -> &mut dyn gcode::core::Diagnostics {
        &mut self.diagnostics
    }
}

impl gcode::core::CommandVisitor for Cmd<'_> {
    fn argument(&mut self, letter: char, value: gcode::core::Value<'_>, _span: gcode::core::Span) {
        let literal = match value {
            gcode::core::Value::Literal(v) => Some(v),
            gcode::core::Value::Variable(_) => None,
        };
        self.command.argument(letter, literal);
    }

    fn end_command(self, _span: gcode::core::Span) {
        self.visitor
            .end_command(self.command, |a: f32, b: f32| a + b, |a: f32, b: f32| a > b);
    }
}

fn run_with(
    gcode: &str,
    ignore_priming_line: bool,
    ignore_adhesion: bool,
) -> RenderThumbnailVisitor<f32> {
    let mut visitor = RenderThumbnailVisitor::new(ignore_priming_line, ignore_adhesion, 0.0);
    let mut driver = Driver {
        diagnostics: gcode::core::Noop,
        visitor: &mut visitor,
    };
    gcode::core::parse(gcode, &mut driver);
    visitor
}

fn run(gcode: &str, ignore_priming_line: bool) -> RenderThumbnailVisitor<f32> {
    run_with(gcode, ignore_priming_line, true)
}

#[test]
/// Checks that in absolute extrusion mode, a segment is only added when
/// extruding, aka when the E value increases.
fn test_absolute_extrusion_e_delta() {
    const GCODE: &str = r#"
G90
M82
G1 X10 Y0 E1
G1 X20 Y0 E1.5
G1 X30 Y0 E1.1
"#;

    let visitor = run(GCODE, true);

    assert_eq!(visitor.segments.len(), 2);
    assert_eq!(visitor.segments[0].start.x, 0.0);
    assert_eq!(visitor.segments[0].end.x, 10.0);
    assert_eq!(visitor.segments[1].start.x, 10.0);
    assert_eq!(visitor.segments[1].end.x, 20.0);
}

#[test]
/// Checks that in relative extrusion mode, a segment is only added when
/// extruding, aka when the E value is greater than 0.
fn test_relative_extrusion_e_delta() {
    const GCODE: &str = r#"
G90
M83
G1 X5 Y0 E1
G1 X10 Y0 E-1
G1 X15 Y0 E0.5
"#;

    let visitor = run(GCODE, true);

    assert_eq!(visitor.segments.len(), 2);
    assert_eq!(visitor.segments[0].start.x, 0.0);
    assert_eq!(visitor.segments[0].end.x, 5.0);
    assert_eq!(visitor.segments[1].start.x, 10.0);
    assert_eq!(visitor.segments[1].end.x, 15.0);
}

#[test]
/// Checks that the priming line is ignored when the option is enabled, and
/// isn't ignored when the option is disabled.
fn test_ignores_priming_line() {
    const GCODE: &str = r#"
G1 X5 Y0 E1
;LAYER:0
G1 X10 Y0 E2
"#;

    {
        let visitor = run(GCODE, true);

        assert_eq!(visitor.segments.len(), 1);
        assert_eq!(visitor.segments[0].start.x, 5.0);
        assert_eq!(visitor.segments[0].end.x, 10.0);
    }
    {
        let visitor = run(GCODE, false);

        assert_eq!(visitor.segments.len(), 2);
        assert_eq!(visitor.segments[0].start.x, 0.0);
        assert_eq!(visitor.segments[0].end.x, 5.0);
        assert_eq!(visitor.segments[1].start.x, 5.0);
        assert_eq!(visitor.segments[1].end.x, 10.0);
    }
}

#[test]
fn relative_positioning_adds_offsets() {
    let visitor = run("G91\nM83\nG1 X5 Y2 Z1 E1\nG1 X5 Y-2 E1\n", true);
    assert_eq!(visitor.segments.len(), 2);
    assert_eq!(visitor.segments[1].start.x, 5.0);
    assert_eq!(visitor.segments[1].start.y, 2.0);
    assert_eq!(visitor.segments[1].end.x, 10.0);
    assert_eq!(visitor.segments[1].end.y, 0.0);
    assert_eq!(visitor.segments[1].end.z, 1.0);
    assert_eq!(visitor.state.x, 10.0);
    assert_eq!(visitor.state.e, 2.0);
    assert_eq!(visitor.state.distance_mode, PositionMode::Relative);
    assert_eq!(visitor.state.extrusion_mode, PositionMode::Relative);
}

#[test]
fn travel_moves_add_no_segment() {
    let visitor = run("G0 X10 Y10\nG1 X20 Y10 E1\nG1 X30 Y10\n", true);
    assert_eq!(visitor.segments.len(), 1);
    assert_eq!(visitor.segments[0].start.x, 10.0);
    assert_eq!(visitor.segments[0].end.x, 20.0);
    assert_eq!(visitor.state.x, 30.0);
}

#[test]
fn g92_sets_position_without_segment() {
    let visitor = run("G1 X10 E5\nG92 E0 X1\nG1 X2 E1\n", true);
    assert_eq!(visitor.segments.len(), 2);
    assert_eq!(visitor.segments[1].start.x, 1.0);
    assert_eq!(visitor.segments[1].end.x, 2.0);
    assert_eq!(visitor.state.e, 1.0);
}

#[test]
fn orca_marker_clears_priming_segments_once() {
    let visitor = run(
        "G1 X5 E1\n; Filament gcode\nG1 X6 E2\n;LAYER:0\nG1 X7 E3\n",
        true,
    );
    assert_eq!(visitor.segments.len(), 2);
    assert_eq!(visitor.segments[0].start.x, 5.0);
    assert!(!visitor.ignore_priming_line);
}

#[test]
fn other_comments_and_codes_change_nothing() {
    let visitor = run("; LAYER:1\nM104 S200\nG28 X5\nT1\n", true);
    assert_eq!(visitor.segments.len(), 0);
    assert_eq!(visitor.state.x, 0.0);
    assert!(visitor.ignore_priming_line);
}

#[test]
fn non_literal_arguments_are_ignored() {
    let mut visitor: RenderThumbnailVisitor<f32> = RenderThumbnailVisitor::new(true, true, 0.0);
    let mut command = visitor.start_general_code(1);
    command.argument('X', None);
    command.argument('E', Some(1.0));
    visitor.end_command(command, |a: f32, b: f32| a + b, |a: f32, b: f32| a > b);
    assert_eq!(visitor.segments.len(), 1);
    assert_eq!(visitor.segments[0].end.x, 0.0);
    assert_eq!(visitor.state.e, 1.0);
}

#[test]
fn command_kinds_follow_code_numbers() {
    let visitor: RenderThumbnailVisitor<f32> = RenderThumbnailVisitor::new(true, true, 0.0);
    assert_eq!(visitor.start_general_code(0).kind, CommandKind::G0);
    assert_eq!(visitor.start_general_code(1).kind, CommandKind::G1);
    assert_eq!(visitor.start_general_code(90).kind, CommandKind::G90);
    assert_eq!(visitor.start_general_code(91).kind, CommandKind::G91);
    assert_eq!(visitor.start_general_code(92).kind, CommandKind::G92);
    assert_eq!(visitor.start_general_code(28).kind, CommandKind::Ignore);
    assert_eq!(visitor.start_miscellaneous_code(82).kind, CommandKind::M82);
    assert_eq!(visitor.start_miscellaneous_code(83).kind, CommandKind::M83);
    assert_eq!(visitor.start_miscellaneous_code(1).kind, CommandKind::Ignore);
}

#[test]
fn apply_axis_follows_mode() {
    let plus = |a: f32, b: f32| a + b;
    assert_eq!(apply_axis(3.0, Some(2.0), PositionMode::Absolute, &plus), 2.0);
    assert_eq!(apply_axis(3.0, Some(2.0), PositionMode::Relative, &plus), 5.0);
    assert_eq!(apply_axis(3.0, None, PositionMode::Relative, &plus), 3.0);
    assert_eq!(apply_axis(3.0, None, PositionMode::Absolute, &plus), 3.0);
}

#[test]
fn command_arguments_keep_xyze_only() {
    let mut command: Command<f32> = Command::new(CommandKind::G1);
    command.argument('X', Some(1.0));
    command.argument('F', Some(1500.0));
    command.argument('E', None);
    command.argument('Z', Some(0.2));
    assert_eq!(command.args.x, Some(1.0));
    assert_eq!(command.args.y, None);
    assert_eq!(command.args.z, Some(0.2));
    assert_eq!(command.args.e, None);
}

const ADHESION_GCODE: &str = r#"
;LAYER:0
;TYPE:SKIRT
G1 X5 E1
G1 X6 E2
;TYPE:WALL-OUTER
G1 X7 E3
; FEATURE: Brim
G1 X8 E4
;TYPE:Raft
G1 X9 E5
;TYPE:Skirt/Brim
G1 X10 E6
;TYPE:External perimeter
G1 X11 E7
"#;

#[test]
fn adhesion_helpers_are_left_out_by_default() {
    let visitor = run_with(ADHESION_GCODE, true, true);
    assert_eq!(visitor.segments.len(), 2);
    assert_eq!(visitor.segments[0].start.x, 6.0);
    assert_eq!(visitor.segments[0].end.x, 7.0);
    assert_eq!(visitor.segments[1].start.x, 10.0);
    assert_eq!(visitor.segments[1].end.x, 11.0);
    assert_eq!(visitor.state.x, 11.0);
    assert!(!visitor.in_adhesion);
}

#[test]
fn adhesion_helpers_are_kept_when_asked() {
    let visitor = run_with(ADHESION_GCODE, true, false);
    assert_eq!(visitor.segments.len(), 7);
    assert_eq!(visitor.segments[0].start.x, 0.0);
    assert_eq!(visitor.segments[0].end.x, 5.0);
}

#[test]
fn feature_comments_set_the_adhesion_section() {
    let mut visitor: RenderThumbnailVisitor<f32> = RenderThumbnailVisitor::new(false, true, 0.0);
    assert!(!visitor.comment(";TYPE:SKIRT"));
    assert!(visitor.in_adhesion);
    visitor.comment("; just a note");
    assert!(visitor.in_adhesion);
    visitor.comment(";TYPE:FILL");
    assert!(!visitor.in_adhesion);
    visitor.comment(";FEATURE:Brim");
    assert!(visitor.in_adhesion);
    visitor.comment(";TYPE:");
    assert!(!visitor.in_adhesion);
}
