use bacon::{
    CommandOutputLine, CommandStream, ItemAccumulator, Kind, Line, LineType, Mission, TLine,
    TString,
};

fn tstring(csi: &str, raw: &str) -> TString {
    TString {
        csi: csi.to_string(),
        raw: raw.to_string(),
    }
}

fn tline(strings: &[(&str, &str)]) -> TLine {
    TLine {
        strings: strings.iter().map(|(csi, raw)| tstring(csi, raw)).collect(),
    }
}

fn line(line_type: LineType, strings: &[(&str, &str)]) -> Line {
    Line {
        item_idx: 0,
        line_type,
        content: tline(strings),
    }
}

#[test]
fn title_message_of_an_unstyled_title() {
    let l = line(LineType::Title(Kind::Error), &[("", "error: mismatched types")]);
    assert_eq!(l.title_message(), Some("error: mismatched types"));
}

#[test]
fn title_message_of_a_styled_title() {
    let l = line(
        LineType::Title(Kind::Warning),
        &[("\u{1b}[33m", "warning"), ("\u{1b}[0m", ": \tunused variable: `x`")],
    );
    assert_eq!(l.title_message(), Some("unused variable: `x`"));
    let only_padding = line(LineType::Title(Kind::Warning), &[("x", "warning"), ("", " : ")]);
    assert_eq!(only_padding.title_message(), Some(""));
}

#[test]
fn title_message_of_other_lines() {
    let one_styled = line(LineType::Title(Kind::Error), &[("\u{1b}[31m", "error")]);
    assert_eq!(one_styled.title_message(), None);
    let normal = line(LineType::Normal, &[("", "error: mismatched types")]);
    assert_eq!(normal.title_message(), None);
}

#[test]
fn location_is_the_last_token() {
    let l = line(LineType::Location, &[("\u{1b}[34m", "  --> "), ("", "src/main.rs:15:3")]);
    assert_eq!(l.location(), Some("src/main.rs:15:3"));
    let inline = line(LineType::Location, &[("", "  --> src/lib.rs")]);
    assert_eq!(inline.location(), Some("src/lib.rs"));
    let trailing_space = line(LineType::Location, &[("", "  --> src/lib.rs ")]);
    assert_eq!(trailing_space.location(), None);
    let not_location = line(LineType::Normal, &[("", "src/lib.rs")]);
    assert_eq!(not_location.location(), None);
    let empty = line(LineType::Location, &[]);
    assert_eq!(empty.location(), None);
}

#[test]
fn location_path_is_taken_from_the_package() {
    let mission = Mission {
        package_directory: "/home/me/project".to_string(),
    };
    let relative = line(LineType::Location, &[("", "  --> src/main.rs:15:3")]);
    assert_eq!(
        relative.location_path(&mission).as_deref(),
        Some("/home/me/project/src/main.rs:15:3")
    );
    let absolute = line(LineType::Location, &[("", "  --> /usr/lib/rust/core.rs")]);
    assert_eq!(
        absolute.location_path(&mission).as_deref(),
        Some("/usr/lib/rust/core.rs")
    );
    let normal = line(LineType::Normal, &[("", "x")]);
    assert_eq!(normal.location_path(&mission), None);
}

#[test]
fn summary_keeps_titles_and_locations() {
    let title = line(LineType::Title(Kind::Error), &[]);
    let location = line(LineType::Location, &[]);
    let normal = line(LineType::Normal, &[]);
    assert!(title.matches(true) && title.matches(false));
    assert!(location.matches(true));
    assert!(!normal.matches(true) && normal.matches(false));
}

#[test]
fn continuation_lines() {
    let c = line(LineType::Continuation { offset: 1, total: 3 }, &[]);
    assert!(c.is_continuation());
    assert!(!line(LineType::Normal, &[]).is_continuation());
}

#[test]
fn command_output_becomes_a_raw_line() {
    let col = CommandOutputLine {
        content: tline(&[("", "Compiling bacon")]),
        origin: CommandStream::StdErr,
    };
    let l = Line::from(col);
    assert_eq!(l.item_idx, 0);
    assert_eq!(l.line_type, LineType::Raw(CommandStream::StdErr));
    assert_eq!(l.content, tline(&[("", "Compiling bacon")]));
}

#[test]
fn accumulated_lines_are_sorted_and_numbered() {
    let mut acc = ItemAccumulator::default();
    acc.push_line(LineType::Normal, tline(&[("", "dropped: no item yet")]));
    acc.start_item(Kind::Warning);
    acc.push_line(LineType::Title(Kind::Warning), tline(&[("", "warning: w1")]));
    acc.push_line(LineType::Normal, tline(&[("", "w1 body")]));
    acc.start_item(Kind::Error);
    acc.push_line(LineType::Title(Kind::Error), tline(&[("", "error: e1")]));
    acc.start_item(Kind::TestFail);
    acc.push_line(LineType::Title(Kind::TestFail), tline(&[("", "test t1")]));
    acc.push_line(LineType::Normal, tline(&[("", "t1 body")]));
    acc.start_item(Kind::Sum);
    acc.push_line(LineType::Normal, tline(&[("", "dropped: in a sum")]));
    acc.start_item(Kind::Error);
    acc.push_line(LineType::Title(Kind::Error), tline(&[("", "error: e2")]));
    let lines = acc.lines();
    let seen: Vec<(usize, &str)> = lines
        .iter()
        .map(|l| (l.item_idx, l.content.strings[0].raw.as_str()))
        .collect();
    assert_eq!(
        seen,
        vec![
            (1, "error: e1"),
            (2, "error: e2"),
            (3, "test t1"),
            (3, "t1 body"),
            (4, "warning: w1"),
            (4, "w1 body"),
        ]
    );
}

#[test]
fn lines_before_any_title_have_index_zero() {
    let mut acc = ItemAccumulator::default();
    acc.start_item(Kind::Error);
    acc.push_line(LineType::Normal, tline(&[("", "orphan")]));
    acc.push_line(LineType::Title(Kind::Error), tline(&[("", "error")]));
    let lines = acc.lines();
    assert_eq!(lines[0].item_idx, 0);
    assert_eq!(lines[1].item_idx, 1);
    assert!(ItemAccumulator::default().lines().is_empty());
}
