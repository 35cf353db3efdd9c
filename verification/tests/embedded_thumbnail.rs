use std::ops::ControlFlow as Flow;

use gcode_thumbnailer::embedded_thumbnail::{ProgramVisitorImpl, ThumbnailComment};

/// Drives a `ProgramVisitorImpl` from the G-code parser.
struct Driver<'a> {
    diagnostics: gcode::core::Noop,
    scanner: &'a mut ProgramVisitorImpl,
}

impl gcode::core::HasDiagnostics for Driver<'_> {
    fn diagnostics(&mut self) -> &mut dyn gcode::core::Diagnostics {
        &mut self.diagnostics
    }
}

impl gcode::core::ProgramVisitor for Driver<'_> {
    fn start_block(&mut self) -> gcode::core::ControlFlow<impl gcode::core::BlockVisitor + '_> {
        gcode::core::ControlFlow::Continue(Block {
            diagnostics: gcode::core::Noop,
            scanner: &mut *self.scanner,
        })
    }
}

struct Block<'a> {
    diagnostics: gcode::core::Noop,
    scanner: &'a mut ProgramVisitorImpl,
}

impl gcode::core::HasDiagnostics for Block<'_> {
    fn diagnostics(&mut self) -> &mut dyn gcode::core::Diagnostics {
        &mut self.diagnostics
    }
}

impl gcode::core::BlockVisitor for Block<'_> {
    fn comment(&mut self, value: &str, _span: gcode::core::Span) {
        self.scanner.comment(value);
    }

    fn start_general_code(&mut self, number: gcode::core::Number) -> gcode::core::ControlFlow<impl gcode::core::CommandVisitor + '_> {
        match self.scanner.start_general_code(number.major()) {
            Flow::Break(()) => gcode::core::ControlFlow::<gcode::core::Noop>::Break(()),
            Flow::Continue(()) => gcode::core::ControlFlow::Continue(gcode::core::Noop),
        }
    }
}

fn scan(gcode: &str) -> ProgramVisitorImpl {
    let mut scanner = ProgramVisitorImpl::new();
    let mut driver = Driver {
        diagnostics: gcode::core::Noop,
        scanner: &mut scanner,
    };
    gcode::core::parse(gcode, &mut driver);
    scanner
}

#[test]
fn finds_a_single_thumbnail() {
    let scanner = scan(
        "; generated by a slicer\n;\n; thumbnail begin 16x16 8\n; AAAA\n; BBBB\n; thumbnail end\n;\nG28\n",
    );
    let best = scanner.get_best_thumbnail().expect("a thumbnail");
    assert_eq!(best.width, 16);
    assert_eq!(best.height, 16);
    assert_eq!(best.data, "AAAABBBB");
}

#[test]
fn keeps_the_largest_thumbnail() {
    let scanner = scan(
        "; thumbnail begin 16x16 4\n; AAAA\n; thumbnail end\n\
         ; thumbnail begin 300x300 4\n; BBBB\n; thumbnail end\n\
         ; thumbnail begin 32x32 4\n; CCCC\n; thumbnail end\n",
    );
    let best = scanner.get_best_thumbnail().expect("a thumbnail");
    assert_eq!((best.width, best.height), (300, 300));
    assert_eq!(best.data, "BBBB");
}

#[test]
fn keeps_the_first_of_equal_sizes() {
    let scanner = scan(
        "; thumbnail begin 20x10 4\n; AAAA\n; thumbnail end\n\
         ; thumbnail begin 10x20 4\n; BBBB\n; thumbnail end\n",
    );
    let best = scanner.get_best_thumbnail().expect("a thumbnail");
    assert_eq!((best.width, best.height), (20, 10));
    assert_eq!(best.data, "AAAA");
}

#[test]
fn stops_at_the_first_g1_move() {
    let scanner = scan("G28\nG1 X1 Y1\n; thumbnail begin 16x16 4\n; AAAA\n; thumbnail end\n");
    assert!(scanner.get_best_thumbnail().is_none());
}

#[test]
fn unfinished_block_gives_no_thumbnail() {
    let scanner = scan("; thumbnail begin 16x16 4\n; AAAA\n");
    assert!(scanner.get_best_thumbnail().is_none());
}

#[test]
fn malformed_headers_open_no_block() {
    for header in [
        "; thumbnail begin 16x16",
        "; thumbnail begin 16y16 4",
        "; thumbnail begin -1x16 4",
        "; thumbnail begin 16x16 big",
        "; thumbnail_QOI begin 16x16 4",
        "; thumbnail begin 4294967296x1 4",
    ] {
        let scanner = scan(&format!("{header}\n; AAAA\n; thumbnail end\n"));
        assert!(scanner.get_best_thumbnail().is_none(), "{header}");
    }
}

#[test]
fn comment_kinds_are_reported() {
    let mut scanner = ProgramVisitorImpl::new();
    assert!(matches!(scanner.comment("; hello"), ThumbnailComment::Other));
    assert!(matches!(scanner.comment("; thumbnail end"), ThumbnailComment::UnmatchedEnd));
    assert!(scanner.get_best_thumbnail().is_none());
    assert!(matches!(
        scanner.comment(";  thumbnail begin +3x2 07"),
        ThumbnailComment::Begin { width: 3, height: 2 }
    ));
    assert!(matches!(scanner.comment("; QUJD"), ThumbnailComment::Data));
    assert!(matches!(
        scanner.comment(";thumbnail end"),
        ThumbnailComment::Completed { width: 3, height: 2, best: true }
    ));
    assert_eq!(scanner.get_best_thumbnail().unwrap().data, "QUJD");
    assert!(matches!(scanner.comment("; thumbnail begin 1x1 1"), ThumbnailComment::Begin { .. }));
    assert!(matches!(
        scanner.comment("; thumbnail end"),
        ThumbnailComment::Completed { width: 1, height: 1, best: false }
    ));
    assert_eq!(scanner.get_best_thumbnail().unwrap().width, 3);
}

#[test]
fn a_new_header_discards_an_open_block() {
    let mut scanner = ProgramVisitorImpl::new();
    scanner.comment("; thumbnail begin 8x8 4");
    scanner.comment("; AAAA");
    scanner.comment("; thumbnail begin 4x4 4");
    scanner.comment("; BBBB");
    scanner.comment("; thumbnail end");
    let best = scanner.get_best_thumbnail().unwrap();
    assert_eq!((best.width, best.height), (4, 4));
    assert_eq!(best.data, "BBBB");
}

#[test]
fn general_codes_other_than_g1_continue() {
    let scanner = ProgramVisitorImpl::new();
    assert_eq!(scanner.start_general_code(1), Flow::Break(()));
    assert_eq!(scanner.start_general_code(0), Flow::Continue(()));
    assert_eq!(scanner.start_general_code(28), Flow::Continue(()));
}
