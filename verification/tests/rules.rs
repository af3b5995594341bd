use notecalc::app::{NoteCalcApp, RedrawTarget};
use notecalc::buckets::{Layer, OutputMessage, OutputMessageCommandId, RenderBuckets};
use notecalc::canvas::Canvas;
use notecalc::content::{EditorContent, LineData};
use notecalc::coords::{EditorY, Pos, RenderPosY, Selection};
use notecalc::editor::{
    EditorCommand, EditorInputEvent, InputModifiers, RowModificationType,
};
use notecalc::events::FocusedEditor;
use notecalc::input::InputNext;
use notecalc::matrix_editing::MatrixEditing;
use notecalc::objects::{EditorObject, EditorObjectType, EditorObjects};
use notecalc::render_data::{GlobalRenderData, PerLineRenderData};
use notecalc::results::{
    CalcResult, EvaluationResult, FormatTexts, Precision, ResultFormat, ResultLengths, ResultText,
    Results, ScalarResult, Variable,
};
use notecalc::row_flags::EditorRowFlags;
use notecalc::selection_sum::{SelectionQuestion, SelectionSum, SelectionValue, SumAction};
use notecalc::tokens::{AppTokens, Token, TokenType, Tokens};
use notecalc::update::{TokenUpdate, UpdateAction, UpdateEvent};

fn chars(text: &str) -> Vec<char> {
    text.chars().collect()
}

fn text_of(text: &str) -> ResultText {
    let lengths =
        ResultLengths { int_part_len: text.len(), frac_part_len: 0, unit_part_len: 0 };
    ResultText { text: text.to_owned(), lengths }
}

fn texts(text: &str) -> FormatTexts {
    FormatTexts {
        bin: text_of(&format!("b{}", text)),
        dec: text_of(text),
        hex: text_of(&format!("x{}", text)),
    }
}

fn number(text: &str) -> CalcResult {
    CalcResult::Scalar(ScalarResult { full: texts(text), two: texts(text), four: texts(text) })
}

fn dec_text(result: &CalcResult) -> &str {
    match result {
        CalcResult::Scalar(result) => &result.full.dec.text,
        CalcResult::Matrix(mat) => &mat.inline.dec.text,
    }
}

fn sum_variable() -> Variable {
    Variable { name: chars("sum"), value: Err(()), defined_at_row: 0 }
}

fn pad_with(text: &str) -> NoteCalcApp {
    let mut app = NoteCalcApp::new(120, 35);
    app.set_normalized_content(text);
    app
}

fn matrix(row_count: usize, col_count: usize, text: &str) -> MatrixEditing {
    let text = chars(text);
    MatrixEditing::new(
        row_count,
        col_count,
        &text,
        EditorY::new(0),
        0,
        text.len(),
        Pos::from_row_column(0, 0),
    )
}

fn press(
    app: &mut NoteCalcApp,
    input: EditorInputEvent,
    modifiers: InputModifiers,
) -> (Vec<EditorCommand>, InputNext) {
    let outcome = app.handle_input_and_update_tokens_plus_redraw_requirements(
        input,
        modifiers,
        &AppTokens::new(),
        &Results::new(),
        &vec![sum_variable()],
        &mut EditorObjects::new(),
    );
    (outcome.commands, outcome.next)
}

fn reference(start_x: usize, end_x: usize) -> EditorObject {
    EditorObject {
        typ: EditorObjectType::LineReference,
        row: EditorY::new(0),
        start_x,
        end_x,
        rendered_x: start_x,
        rendered_y: RenderPosY::new(0),
        rendered_w: end_x - start_x,
        rendered_h: 1,
    }
}

fn need(flags: &EditorRowFlags) -> Vec<usize> {
    (0..64).filter(|row| flags.need(EditorY::new(*row))).collect()
}

#[test]
fn flags_hold_the_rows_they_were_made_of() {
    assert_eq!(vec![3], need(&EditorRowFlags::single_row(3)));
    assert_eq!(vec![2, 3, 4], need(&EditorRowFlags::range(2, 4)));
    assert_eq!(vec![63], need(&EditorRowFlags::range(63, 63)));
    assert_eq!(vec![1, 5, 9], need(&EditorRowFlags::multiple(&[5, 1, 9, 5])));
    assert_eq!(vec![62, 63], need(&EditorRowFlags::all_rows_starting_at(62)));
    assert_eq!(64, need(&EditorRowFlags::all_rows_starting_at(0)).len());
}

#[test]
fn merged_flags_hold_the_rows_of_both() {
    let mut flags = EditorRowFlags::range(2, 3);
    flags.merge(EditorRowFlags::single_row(60));
    assert_eq!(vec![2, 3, 60], need(&flags));
    flags.clear();
    assert!(need(&flags).is_empty());
}

#[test]
fn marks_go_to_their_part_of_the_screen() {
    let mut app = NoteCalcApp::new(120, 35);
    app.editor_area_redraw.clear();
    app.result_area_redraw.clear();
    app.set_redraw_flag(EditorRowFlags::single_row(1), RedrawTarget::EditorArea);
    app.set_redraw_flag(EditorRowFlags::single_row(2), RedrawTarget::ResultArea);
    app.set_redraw_flag(EditorRowFlags::single_row(3), RedrawTarget::Both);
    assert_eq!(vec![1, 3], need(&app.editor_area_redraw));
    assert_eq!(vec![2, 3], need(&app.result_area_redraw));
}

#[test]
fn ends_of_a_selection_are_ordered() {
    let backwards = Selection::range(Pos::from_row_column(2, 3), Pos::from_row_column(1, 5));
    assert_eq!(Pos::from_row_column(1, 5), backwards.get_first());
    assert_eq!(Pos::from_row_column(2, 3), backwards.get_second());
    assert_eq!(Pos::from_row_column(1, 5), backwards.get_cursor_pos());
    let forwards = Selection::range(Pos::from_row_column(1, 2), Pos::from_row_column(1, 7));
    assert_eq!(Pos::from_row_column(1, 2), forwards.get_first());
    assert_eq!(Pos::from_row_column(1, 7), forwards.get_cursor_pos());
    assert!(!Selection::single_r_c(4, 4).is_range());
}

#[test]
fn text_that_was_set_is_given_back() {
    let mut content = EditorContent::new(0usize);
    assert_eq!("", content.get_content());
    content.set_content("a\n\nbé\n", 7);
    assert_eq!(4, content.line_count());
    assert_eq!(2, content.line_len(2));
    assert_eq!("a\n\nbé\n", content.get_content());
    assert_eq!(vec![7, 7, 7, 7], content.data);
}

#[test]
fn results_have_room() {
    assert_eq!(50, NoteCalcApp::calc_result_gutter_x(Some(50), 120));
    assert_eq!(88, NoteCalcApp::calc_result_gutter_x(Some(88), 120));
    assert_eq!(88, NoteCalcApp::calc_result_gutter_x(Some(89), 120));
    assert_eq!(88, NoteCalcApp::calc_result_gutter_x(None, 120));
    assert_eq!(125, NoteCalcApp::calc_result_gutter_x(None, 200));
    let mut app = NoteCalcApp::new(120, 35);
    app.handle_resize(60);
    assert_eq!(28, app.render_data.result_gutter_x);
    assert_eq!(24, app.render_data.current_editor_width);
    app.handle_resize(120);
    assert_eq!(28, app.render_data.result_gutter_x);
}

#[test]
fn empty_text_stands_for_ten_line_breaks() {
    let app = pad_with("");
    assert_eq!(11, app.editor_content.line_count());
    assert_eq!(12, app.line_id_generator);
}

#[test]
fn references_are_written_by_the_place_of_their_line() {
    let mut app = pad_with("1\n2\n3");
    app.editor_content.data[0].line_id = 9;
    app.editor_content.data[1].line_id = 1234;
    app.editor_content.lines[2] = chars("&[1234] + &[9] - &[77] &[0] &[12 &[]x&&[1234]");
    assert_eq!(
        "1\n2\n&[2] + &[1] - &[1] &[0] &[12 &[]x&&[2]\n",
        app.get_normalized_content()
    );
}

#[test]
fn normalized_text_is_set_again_and_stays() {
    let mut app = pad_with("10\n20\n&[2]&[1] and &[");
    app.editor_content.data[0].line_id = 5;
    app.editor_content.data[1].line_id = 6;
    app.editor_content.lines[2] = chars("&[6]&[5] and &[");
    let text = app.get_normalized_content();
    assert_eq!("10\n20\n&[2]&[1] and &[\n", text);
    let again = pad_with(&text);
    assert_eq!(4, again.editor_content.line_count());
    assert_eq!(format!("{}\n", text), again.get_normalized_content());
}

#[test]
fn places_of_many_lines_have_several_digits() {
    let mut app = pad_with(&"1\n".repeat(12));
    app.editor_content.data[10].line_id = 1011;
    app.editor_content.lines[12] = chars("&[1011]");
    assert!(app.get_normalized_content().ends_with("\n&[11]\n"));
}

#[test]
fn places_of_four_digits_are_written_out_of_order() {
    let mut app = pad_with(&"1\n".repeat(1300));
    let references = chars("&[9]&[10]&[99]&[100]&[789]&[999]&[1000]&[1111]&[1234]");
    app.editor_content.lines[1300] = references;
    assert!(app
        .get_normalized_content()
        .ends_with("\n&[9]&[10]&[99]&[100]&[789]&[999]&[0100]&[1111]&[4123]\n"));
}

#[test]
fn set_text_is_given_back() {
    let text = "10\n&[1] + &[3]\n\n&[0] &[x] &[4]";
    assert_eq!(format!("{}\n", text), pad_with(text).get_normalized_content());
    let other = "&[01]\n&[5]";
    assert_eq!("&[1]\n&[1]\n", pad_with(other).get_normalized_content());
}

#[test]
fn matrix_text_is_read_and_written() {
    let edited = matrix(2, 3, "[1, 2,3; 4,5 ,6]");
    assert_eq!(vec!["1", "2", "3", "4", "5 ", "6"], edited.cell_strings);
    assert_eq!("[1,2,3;4,5 ,6]", edited.matrix_string());
}

#[test]
fn columns_and_rows_are_added_and_removed() {
    let mut edited = matrix(2, 2, "[1,2;3,4]");
    edited.add_column();
    assert_eq!("[1,2,0;3,4,0]", edited.matrix_string());
    edited.remove_column();
    assert_eq!("[1,2;3,4]", edited.matrix_string());
    edited.add_row();
    assert_eq!("[1,2;3,4;0,0]", edited.matrix_string());
    edited.remove_row();
    assert_eq!("[1,2;3,4]", edited.matrix_string());
}

#[test]
fn matrices_grow_up_to_their_limit() {
    let mut edited = matrix(1, 1, "[7]");
    for _ in 0..10 {
        edited.add_column();
        edited.add_row();
    }
    assert_eq!((6, 6), (edited.row_count, edited.col_count));
    assert_eq!(36, edited.cell_strings.len());
}

#[test]
fn moving_to_another_cell_keeps_what_was_typed() {
    let mut edited = matrix(1, 3, "[1,2,3]");
    edited.editor_content.lines[0] = chars("99");
    edited.change_cell(Pos::from_row_column(0, 2));
    assert_eq!("[99,2,3]", edited.matrix_string());
    assert_eq!("3", edited.editor_content.get_content());
    assert_eq!(
        Selection::range(Pos::from_row_column(0, 0), Pos::from_row_column(0, 1)),
        edited.editor.selection
    );
    edited.change_cell(Pos::from_row_column(0, 0));
    assert_eq!("99", edited.editor_content.get_content());
}

#[test]
fn ended_matrix_is_put_in_place_of_its_old_text() {
    let mut editing = Some(matrix(1, 2, "[1,2]"));
    editing.as_mut().unwrap().editor_content.lines[0] = chars("5");
    let commands =
        NoteCalcApp::end_matrix_editing(&mut editing, Some(Pos::from_row_column(0, 5)));
    assert!(editing.is_none());
    assert_eq!(5, commands.len());
    let whole = Selection::range(Pos::from_row_column(0, 0), Pos::from_row_column(0, 5));
    assert!(matches!(&commands[0], EditorCommand::Select(s) if *s == whole));
    assert!(matches!(&commands[1], EditorCommand::Input(EditorInputEvent::Del, _)));
    assert!(matches!(&commands[2], EditorCommand::InsertText(text) if text == "[5,2]"));
    let end = Selection::single_r_c(0, 5);
    assert!(matches!(&commands[3], EditorCommand::Select(s) if *s == end));
    assert!(matches!(&commands[4], EditorCommand::BlinkCursor));
}

#[test]
fn keys_keep_the_matrix_whole() {
    let mut app = pad_with("[1,2;3,4]");
    app.matrix_editing = Some(matrix(2, 2, "[1,2;3,4]"));
    for input in [
        EditorInputEvent::Right,
        EditorInputEvent::Down,
        EditorInputEvent::Left,
        EditorInputEvent::Up,
    ] {
        press(&mut app, input, InputModifiers::alt());
        let edited = app.matrix_editing.as_ref().unwrap();
        assert!(edited.cell_strings.len() >= edited.row_count * edited.col_count);
        assert!(edited.current_cell.row < edited.row_count);
        assert!(edited.current_cell.column < edited.col_count);
    }
    assert_eq!("[1,2;3,4]", app.matrix_editing.as_ref().unwrap().matrix_string());
    assert_eq!(FocusedEditor::MatrixCell, app.focused_editor());
    let (commands, next) = press(&mut app, EditorInputEvent::Esc, InputModifiers::none());
    assert_eq!(4, commands.len());
    assert_eq!(InputNext::Done(Some(RowModificationType::SingleLine(0))), next);
    assert_eq!(FocusedEditor::Text, app.focused_editor());
}

#[test]
fn cells_that_are_missing_are_not_needed_to_type() {
    let mut app = pad_with("[1,2;3]");
    app.matrix_editing = Some(matrix(2, 2, "[1,2;3]"));
    let (commands, next) = press(&mut app, EditorInputEvent::Char('7'), InputModifiers::none());
    assert!(matches!(
        &commands[..],
        [EditorCommand::CellInput(EditorInputEvent::Char('7'), _)]
    ));
    assert_eq!(InputNext::Done(None), next);
    let (commands, _) = press(&mut app, EditorInputEvent::Tab, InputModifiers::none());
    assert!(commands.is_empty());
    let (commands, _) = press(&mut app, EditorInputEvent::Tab, InputModifiers::none());
    assert!(commands.is_empty());
    let edited = app.matrix_editing.as_ref().unwrap();
    assert_eq!(Pos::from_row_column(1, 0), edited.current_cell);
    assert_eq!(vec!["1", "2", "3"], edited.cell_strings);
}

#[test]
fn formats_turn_in_a_circle() {
    let mut app = pad_with("1\n2\n3");
    app.editor.selection =
        Selection::range(Pos::from_row_column(1, 0), Pos::from_row_column(2, 0));
    let format = |app: &NoteCalcApp, row: usize| app.editor_content.get_data(row).result_format;
    app.result_area_redraw.clear();
    app.editor_area_redraw.clear();
    press(&mut app, EditorInputEvent::Left, InputModifiers::alt());
    assert_eq!(ResultFormat::Dec, format(&app, 0));
    assert_eq!(ResultFormat::Bin, format(&app, 1));
    assert_eq!(ResultFormat::Bin, format(&app, 2));
    assert_eq!(vec![1, 2], need(&app.result_area_redraw));
    assert!(need(&app.editor_area_redraw).is_empty());
    press(&mut app, EditorInputEvent::Left, InputModifiers::alt());
    assert_eq!(ResultFormat::Hex, format(&app, 1));
    press(&mut app, EditorInputEvent::Left, InputModifiers::alt());
    assert_eq!(ResultFormat::Dec, format(&app, 1));
    press(&mut app, EditorInputEvent::Right, InputModifiers::alt());
    assert_eq!(ResultFormat::Hex, format(&app, 1));
    press(&mut app, EditorInputEvent::Right, InputModifiers::alt());
    assert_eq!(ResultFormat::Bin, format(&app, 1));
    press(&mut app, EditorInputEvent::Right, InputModifiers::alt());
    assert_eq!(ResultFormat::Dec, format(&app, 1));
}

#[test]
fn chosen_line_stays_above_the_cursor() {
    let mut app = pad_with("1\n2\n3");
    app.editor.selection = Selection::single_r_c(2, 0);
    press(&mut app, EditorInputEvent::Down, InputModifiers::alt());
    assert_eq!(None, app.line_reference_chooser);
    let mut chosen = Vec::new();
    for input in [
        EditorInputEvent::Up,
        EditorInputEvent::Up,
        EditorInputEvent::Up,
        EditorInputEvent::Down,
        EditorInputEvent::Down,
    ] {
        press(&mut app, input, InputModifiers::alt());
        chosen.push(app.line_reference_chooser.unwrap().as_usize());
    }
    assert_eq!(vec![1, 0, 0, 1, 1], chosen);
}

#[test]
fn nothing_is_chosen_above_the_first_line() {
    let mut app = pad_with("1\n2");
    press(&mut app, EditorInputEvent::Up, InputModifiers::alt());
    assert_eq!(None, app.line_reference_chooser);
}

#[test]
fn released_alt_key_inserts_a_reference_to_a_result() {
    let mut results = Results::new();
    results.set(EditorY::new(0), Ok(Some(number("1"))));
    results.set(EditorY::new(1), Err(()));
    let mut app = pad_with("1\n[\n\n");
    app.editor.selection = Selection::single_r_c(3, 0);
    assert!(app.alt_key_released(&results).is_none());
    app.line_reference_chooser = Some(EditorY::new(0));
    let (commands, effect) = app.alt_key_released(&results).unwrap();
    assert_eq!(1, commands.len());
    assert!(matches!(&commands[0], EditorCommand::InsertText(text) if text == "&[1]"));
    assert_eq!(RowModificationType::SingleLine(3), effect);
    assert_eq!(None, app.line_reference_chooser);
    for row in [1, 2, 3] {
        app.line_reference_chooser = Some(EditorY::new(row));
        assert!(app.alt_key_released(&results).is_none());
        assert_eq!(None, app.line_reference_chooser);
    }
}

#[test]
fn pasted_text_goes_to_the_editor() {
    let commands = pad_with("1").handle_paste("a\nb".to_owned());
    assert_eq!(1, commands.len());
    assert!(matches!(&commands[0], EditorCommand::InsertText(text) if text == "a\nb"));
}

#[test]
fn passed_time_marks_only_what_blinks() {
    let mut app = pad_with("1\n2\n3");
    app.editor_area_redraw.clear();
    app.result_area_redraw.clear();
    app.editor.selection = Selection::single_r_c(1, 0);
    assert!(!app.handle_time(false));
    assert!(need(&app.editor_area_redraw).is_empty());
    assert!(app.handle_time(true));
    assert_eq!(vec![1], need(&app.editor_area_redraw));
    assert!(need(&app.result_area_redraw).is_empty());
}

#[test]
fn cursor_jumps_over_a_reference_and_back() {
    let mut app = pad_with("12 &[1] 3");
    let mut objects = EditorObjects::new();
    objects.line_mut(EditorY::new(0)).push(reference(3, 7));
    let none = InputModifiers::none();
    app.editor.selection = Selection::single_r_c(0, 3);
    assert_eq!(
        Some(Pos::from_row_column(0, 7)),
        app.handle_obj_jump_over(&EditorInputEvent::Right, none, &objects)
    );
    app.editor.selection = Selection::single_r_c(0, 7);
    assert_eq!(
        Some(Pos::from_row_column(0, 3)),
        app.handle_obj_jump_over(&EditorInputEvent::Left, none, &objects)
    );
    assert_eq!(
        None,
        app.handle_obj_jump_over(&EditorInputEvent::Left, InputModifiers::shift(), &objects)
    );
}

#[test]
fn reference_is_deleted_as_a_whole() {
    let mut app = pad_with("12 &[1] 3");
    let mut objects = EditorObjects::new();
    objects.line_mut(EditorY::new(0)).push(reference(3, 7));
    app.editor.selection = Selection::single_r_c(0, 2);
    assert!(app.handle_obj_deletion(&EditorInputEvent::Del, &mut objects).is_none());
    app.editor.selection = Selection::single_r_c(0, 7);
    let (commands, effect) =
        app.handle_obj_deletion(&EditorInputEvent::Backspace, &mut objects).unwrap();
    let whole = Selection::range(Pos::from_row_column(0, 3), Pos::from_row_column(0, 7));
    assert!(matches!(&commands[0], EditorCommand::Select(s) if *s == whole));
    assert!(matches!(&commands[1], EditorCommand::Input(EditorInputEvent::Backspace, _)));
    assert_eq!(RowModificationType::SingleLine(0), effect);
    assert!(objects[EditorY::new(0)].is_empty());
}

#[test]
fn deleting_a_tall_matrix_moves_the_lines_below() {
    let mut app = pad_with("[1;2]");
    let mut objects = EditorObjects::new();
    let mut object = reference(0, 5);
    object.typ = EditorObjectType::Matrix { row_count: 2, col_count: 1 };
    object.rendered_h = 2;
    objects.line_mut(EditorY::new(0)).push(object);
    app.editor.selection = Selection::single_r_c(0, 0);
    let (_, effect) = app.handle_obj_deletion(&EditorInputEvent::Del, &mut objects).unwrap();
    assert_eq!(RowModificationType::AllLinesFrom(0), effect);
}

#[test]
fn word_with_letters_of_any_script_is_no_matrix() {
    let mut app = pad_with("ém\n");
    let mut objects = EditorObjects::new();
    app.editor.selection = Selection::single_r_c(0, 2);
    assert!(app.handle_completion(&EditorInputEvent::Tab, &mut objects, &[]).is_none());
    let mut app = pad_with("+m\n");
    app.editor.selection = Selection::single_r_c(0, 2);
    let commands =
        app.handle_completion(&EditorInputEvent::Tab, &mut objects, &[]).unwrap();
    assert_eq!(5, commands.len());
    assert_eq!(1, objects[EditorY::new(0)].len());
    assert_eq!(
        EditorObjectType::Matrix { row_count: 1, col_count: 1 },
        objects[EditorY::new(0)][0].typ
    );
}

#[test]
fn only_an_unambiguous_word_is_completed() {
    let variable = |name: &str, row: usize| Variable {
        name: chars(name),
        value: Err(()),
        defined_at_row: row,
    };
    let mut app = pad_with("\n\nap\n");
    app.editor.selection = Selection::single_r_c(2, 2);
    let mut objects = EditorObjects::new();
    let mut complete = |vars: &[Variable]| {
        app.handle_completion(&EditorInputEvent::Tab, &mut objects, vars).map(|commands| {
            commands
                .iter()
                .map(|command| match command {
                    EditorCommand::Input(EditorInputEvent::Char(ch), _) => *ch,
                    _ => '?',
                })
                .collect::<String>()
        })
    };
    assert_eq!(None, complete(&[]));
    assert_eq!(None, complete(&[variable("pear", 0)]));
    assert_eq!(Some("ple".to_owned()), complete(&[variable("apple", 0), variable("pear", 1)]));
    assert_eq!(Some("".to_owned()), complete(&[variable("ap", 0)]));
    assert_eq!(None, complete(&[variable("apple", 0), variable("apricot", 1)]));
    assert_eq!(Some("ple".to_owned()), complete(&[variable("apple", 0), variable("apex", 2)]));
}

#[test]
fn cursor_line_comes_into_view() {
    let objects = EditorObjects::new();
    let mut scrolled_to = |scroll_y: usize, height: usize, from: usize, to: usize| {
        let mut app = pad_with(&"\n".repeat(60));
        app.render_data.client_height = height;
        app.render_data.scroll_y = scroll_y;
        app.editor.selection = Selection::single_r_c(to, 0);
        let next = InputNext::Navigated { prev_selection: Selection::single_r_c(from, 0) };
        assert_eq!(None, app.finish_input(next, None, &objects));
        app.render_data.scroll_y
    };
    assert_eq!(0, scrolled_to(0, 10, 8, 9));
    assert_eq!(1, scrolled_to(0, 10, 9, 10));
    assert_eq!(9, scrolled_to(0, 10, 9, 18));
    assert_eq!(9, scrolled_to(0, 10, 9, 40));
    assert_eq!(3, scrolled_to(5, 10, 5, 3));
}

#[test]
fn wheel_stays_within_the_text() {
    let mut app = pad_with(&"\n".repeat(36));
    app.handle_wheel(0);
    assert_eq!(0, app.render_data.scroll_y);
    app.handle_wheel(1);
    assert_eq!(1, app.render_data.scroll_y);
    app.handle_wheel(0);
    assert_eq!(0, app.render_data.scroll_y);
    for _ in 0..5 {
        app.handle_wheel(1);
    }
    assert_eq!(2, app.render_data.scroll_y);
}

#[test]
fn screen_rows_belong_to_the_lines_that_take_them() {
    let mut app = pad_with("1\n2\n3");
    for (row, y) in [(0, 0), (1, 1), (2, 4)] {
        app.render_data.set_render_y(EditorY::new(row), Some(RenderPosY::new(y)));
    }
    let line_at = |y: usize| app.rendered_y_to_editor_y(RenderPosY::new(y));
    assert_eq!(Some(EditorY::new(0)), line_at(0));
    assert_eq!(Some(EditorY::new(1)), line_at(1));
    assert_eq!(Some(EditorY::new(1)), line_at(3));
    assert_eq!(Some(EditorY::new(2)), line_at(4));
    assert_eq!(None, line_at(5));
}

#[test]
fn dragged_scroll_bar_scrolls() {
    let mut app = pad_with(&"\n".repeat(50));
    let x = app.render_data.result_gutter_x - 1;
    let objects = EditorObjects::new();
    app.handle_click(x, RenderPosY::new(5), &objects);
    assert!(app.handle_drag(x, RenderPosY::new(9)).is_empty());
    assert_eq!(4, app.render_data.scroll_y);
    app.handle_drag(x, RenderPosY::new(0));
    assert_eq!(0, app.render_data.scroll_y);
    app.handle_mouse_up(0, 0);
    app.handle_drag(x, RenderPosY::new(9));
    assert_eq!(0, app.render_data.scroll_y);
}

#[test]
fn lines_are_forgotten_before_they_are_taken_apart() {
    let variables = || {
        vec![
            sum_variable(),
            Variable { name: chars("a"), value: Ok(number("1")), defined_at_row: 1 },
            Variable { name: chars("b"), value: Ok(number("2")), defined_at_row: 0 },
            Variable { name: chars("c"), value: Ok(number("3")), defined_at_row: 1 },
        ]
    };
    let names = |vars: &Vec<Variable>| -> Vec<String> {
        vars.iter().map(|variable| variable.name.iter().collect()).collect()
    };
    let mut vars = variables();
    assert!(NoteCalcApp::parse_tokens(&chars("1 + 2"), 1, &mut vars));
    assert_eq!(vec!["sum", "b"], names(&vars));
    let mut vars = variables();
    assert!(!NoteCalcApp::parse_tokens(&chars("'note"), 0, &mut vars));
    assert_eq!(vec!["sum", "a", "c"], names(&vars));
    assert!(!NoteCalcApp::parse_tokens(&chars("--"), 7, &mut vars));
    assert!(NoteCalcApp::parse_tokens(&chars("-"), 7, &mut vars));
}

#[test]
fn values_get_the_name_they_are_assigned_to() {
    let app = pad_with("  some apples  = 12\n3");
    let evaluated = |assignment: bool| {
        Ok(Some(EvaluationResult {
            there_was_unit_conversion: false,
            there_was_operation: false,
            assignment,
            result: number("12"),
        }))
    };
    let mut vars = vec![sum_variable()];
    for (row, evaluation) in [(0, evaluated(true)), (1, evaluated(false)), (1, Ok(None)), (1, Err(()))]
    {
        NoteCalcApp::evaluate_tokens_and_save_result(
            &mut vars,
            row,
            &app.editor_content,
            &evaluation,
            app.editor_content.get_line_valid_chars(row),
        );
    }
    assert_eq!(3, vars.len());
    assert_eq!(chars("some apples"), vars[1].name);
    assert_eq!(0, vars[1].defined_at_row);
    assert_eq!(chars("&[2]"), vars[2].name);
    assert_eq!("12", dec_text(vars[2].value.as_ref().unwrap()));
}

fn parsed(text: &'static str) -> UpdateEvent<'static> {
    let line: &'static [char] = Box::leak(chars(text).into_boxed_slice());
    UpdateEvent::Parsed {
        tokens: Tokens {
            tokens: vec![Token { ptr: line, typ: TokenType::NumberLiteral }],
            shunting_output_stack: vec![TokenType::NumberLiteral],
        },
        evaluation: Ok(Some(EvaluationResult {
            there_was_unit_conversion: false,
            there_was_operation: false,
            assignment: false,
            result: number(text),
        })),
    }
}

#[test]
fn update_goes_through_the_lines() {
    let mut app = pad_with("1\n'x\n2\n--\n3");
    for data in app.editor_content.data.iter_mut() {
        data.line_id = 0;
    }
    app.line_id_generator = 7;
    app.editor_area_redraw.clear();
    app.result_area_redraw.clear();
    let mut tokens = AppTokens::new();
    let mut results = Results::new();
    let mut vars = vec![sum_variable()];
    let mut update = TokenUpdate::new(RowModificationType::AllLinesFrom(0));
    let mut event = UpdateEvent::Continue;
    let mut sums = Vec::new();
    let mut steps = 0;
    loop {
        let action = app.update_tokens_and_redraw_requirements(
            &mut update,
            event,
            &mut tokens,
            &mut results,
            &mut vars,
        );
        steps += 1;
        event = match action {
            UpdateAction::Proceed => UpdateEvent::Continue,
            UpdateAction::Parse(0) => parsed("1"),
            UpdateAction::Parse(2) => parsed("2"),
            UpdateAction::Parse(row) => {
                assert_eq!(4, row);
                parsed("3")
            }
            UpdateAction::Add(row) => {
                sums.push(row);
                UpdateEvent::Added(Some(number("3")))
            }
            UpdateAction::Finished => break,
        };
    }
    assert!(steps <= 4 * 5 + 3);
    assert_eq!(vec![2], sums);
    assert_eq!("3", dec_text(vars[0].value.as_ref().unwrap()));
    let ids: Vec<usize> = app.editor_content.data.iter().map(|data| data.line_id).collect();
    assert_eq!(vec![7, 8, 9, 10, 11], ids);
    assert_eq!(12, app.line_id_generator);
    assert!(tokens[EditorY::new(1)].is_none());
    assert!(matches!(results[EditorY::new(3)], Ok(None)));
    assert_eq!(1, app.render_data.get_rendered_height(EditorY::new(4)));
    assert_eq!(64, need(&app.editor_area_redraw).len());
}

#[test]
fn first_result_starts_the_sum() {
    let mut sum = sum_variable();
    let mut is_null = true;
    assert!(!NoteCalcApp::sum_result(&mut sum, &number("5"), &mut is_null));
    assert!(!is_null);
    assert_eq!("5", dec_text(sum.value.as_ref().unwrap()));
    assert!(NoteCalcApp::sum_result(&mut sum, &number("6"), &mut is_null));
    assert_eq!("5", dec_text(sum.value.as_ref().unwrap()));
    sum.value = Err(());
    assert!(!NoteCalcApp::sum_result(&mut sum, &number("7"), &mut is_null));
    assert!(sum.value.is_err());
}

#[test]
fn failed_addition_fails_the_sum() {
    let mut app = pad_with("1\n2\n3");
    let mut tokens = AppTokens::new();
    let mut results = Results::new();
    for row in 0..3 {
        results.set(EditorY::new(row), Ok(Some(number("1"))));
    }
    let mut vars = vec![sum_variable()];
    app.editor_area_redraw.clear();
    app.result_area_redraw.clear();
    let mut update = TokenUpdate::new(RowModificationType::SingleLine(9));
    let mut event = UpdateEvent::Continue;
    let mut additions = 0;
    loop {
        let action = app.update_tokens_and_redraw_requirements(
            &mut update,
            event,
            &mut tokens,
            &mut results,
            &mut vars,
        );
        event = match action {
            UpdateAction::Finished => break,
            UpdateAction::Add(_) => {
                additions += 1;
                UpdateEvent::Added(None)
            }
            _ => UpdateEvent::Continue,
        };
    }
    assert_eq!(1, additions);
    assert!(vars[0].value.is_err());
    assert_eq!(vec![9], need(&app.editor_area_redraw));
    assert_eq!(vec![9], need(&app.result_area_redraw));
}

#[test]
fn selected_text_of_a_line_is_asked_for() {
    let mut app = pad_with("12 + 34");
    app.editor_content.data[0].result_format = ResultFormat::Hex;
    app.editor.selection =
        Selection::range(Pos::from_row_column(0, 7), Pos::from_row_column(0, 3));
    match NoteCalcApp::evaluate_selection(&app.editor, &app.editor_content) {
        SelectionQuestion::Text { row, text, format } => {
            assert_eq!(0, row);
            assert_eq!(chars("+ 34"), text);
            assert_eq!(ResultFormat::Hex, format);
        }
        SelectionQuestion::Rows(_) => panic!("one line is selected"),
    }
    let value = |there_was_operation: bool| {
        Ok(Some(SelectionValue { there_was_operation, texts: texts("34") }))
    };
    let text = |value: &Result<Option<SelectionValue>, ()>| {
        NoteCalcApp::selection_text(value, ResultFormat::Hex)
    };
    assert_eq!(Some("x34".to_owned()), text(&value(true)));
    assert_eq!(None, text(&value(false)));
    assert_eq!(None, text(&Ok(None)));
    assert_eq!(None, text(&Err(())));
}

#[test]
fn selected_lines_are_summed() {
    let mut app = pad_with("1\n2\n3\n4");
    app.editor_content.data[3].result_format = ResultFormat::Bin;
    app.editor.selection =
        Selection::range(Pos::from_row_column(3, 0), Pos::from_row_column(1, 0));
    let mut sum = match NoteCalcApp::evaluate_selection(&app.editor, &app.editor_content) {
        SelectionQuestion::Rows(sum) => sum,
        SelectionQuestion::Text { .. } => panic!("several lines are selected"),
    };
    assert_eq!((1, 3), (sum.row, sum.last_row));
    let results = [Err(()), Ok(Some(number("2"))), Ok(None), Ok(Some(number("4")))];
    assert_eq!(SumAction::Add, sum.advance(&results));
    assert_eq!(3, sum.row);
    assert_eq!(SumAction::Done, sum.added(Some(number("6")), &results));
    assert_eq!(ResultFormat::Bin, sum.format);
    assert_eq!(Some("b6".to_owned()), sum.text());
    sum.format = ResultFormat::Dec;
    assert_eq!(Some("6".to_owned()), sum.text());
    let mut failed = SelectionSum { row: 0, last_row: 3, sum: None, format: ResultFormat::Dec };
    assert_eq!(SumAction::NoSum, failed.advance(&results));
    let mut stuck = SelectionSum {
        row: 3,
        last_row: 3,
        sum: Some(number("2")),
        format: ResultFormat::Dec,
    };
    assert_eq!(SumAction::Add, stuck.advance(&results));
    assert_eq!(SumAction::NoSum, stuck.added(None, &results));
    let empty = SelectionSum { row: 0, last_row: 0, sum: None, format: ResultFormat::Dec };
    assert_eq!(None, empty.text());
    let mut nothing =
        SelectionSum { row: 0, last_row: 1, sum: None, format: ResultFormat::Dec };
    assert_eq!(SumAction::Done, nothing.advance(&[Ok(None), Ok(None)]));
    assert_eq!(None, nothing.text());
}

#[test]
fn texts_are_written_onto_the_canvas() {
    let first = chars("abc");
    let mut buckets = RenderBuckets::new();
    buckets.push_utf8_text(&first, RenderPosY::new(0), 2);
    buckets.push_ascii_text(b"12", RenderPosY::new(1), 0);
    buckets.draw_char(Layer::AboveText, 3, RenderPosY::new(0), 'X');
    buckets.draw_string(Layer::Text, 255, RenderPosY::new(1), "yz".to_owned());
    buckets.draw_rect(Layer::BehindText, 0, RenderPosY::new(0), 10, 10);
    let mut canvas = Canvas::new(2);
    NoteCalcApp::render_buckets_into(&buckets, &mut canvas);
    let row = |y: usize| canvas.rows[y].iter().collect::<String>();
    assert_eq!("  aXc", row(0).trim_end());
    assert_eq!(256, canvas.rows[1].len());
    assert!(row(1).starts_with("12 "));
    assert!(row(1).ends_with(" y"));
}

#[test]
fn row_without_result_needs_no_height() {
    let app = pad_with("note");
    let mut gr = GlobalRenderData::new(120, 35, 60, 4, 2);
    gr.set_render_y(EditorY::new(0), Some(RenderPosY::new(0)));
    let mut buffer = [0u8; 8];
    let mut buckets = RenderBuckets::new();
    NoteCalcApp::render_results(
        &mut buckets,
        &[Ok(None)],
        &mut buffer,
        &app.editor_content,
        &gr,
        60,
        EditorRowFlags::single_row(0),
        Precision::Four,
    );
    assert_eq!(2, buckets.custom_commands[0].len());
    assert!(matches!(
        &buckets.custom_commands[0][1],
        OutputMessage::RenderRectangle { x: 62, h: 0, .. }
    ));
    assert!(buckets.ascii_texts.is_empty());
}

#[test]
fn commands_are_sorted_by_layer() {
    let mut buckets = RenderBuckets::new();
    buckets.set_color(Layer::Text, 1);
    buckets.draw_char(Layer::AboveText, 0, RenderPosY::new(0), 'a');
    buckets.draw_ascii_text(Layer::BehindText, 0, RenderPosY::new(0), b"a");
    buckets.push_clear_command(OutputMessage::SetColor(0));
    let ids = |layer: usize| -> Vec<OutputMessageCommandId> {
        buckets.custom_commands[layer].iter().map(|message| message.command_id()).collect()
    };
    assert_eq!(vec![OutputMessageCommandId::RenderAsciiText], ids(0));
    assert_eq!(vec![OutputMessageCommandId::SetColor], ids(1));
    assert_eq!(vec![OutputMessageCommandId::RenderChar], ids(2));
    assert_eq!(1, buckets.clear_commands.len());
    buckets.clear();
    assert!(buckets.custom_commands.iter().all(|commands| commands.is_empty()));
    assert!(buckets.clear_commands.is_empty());
}

#[test]
fn row_height_covers_every_part() {
    let text = chars("[");
    let open = notecalc::tokens::OperatorTokenType::Matrix { row_count: 3, col_count: 1 };
    let tokens = [Token { ptr: &text, typ: TokenType::Operator(open) }];
    let height = |edited: Option<usize>| {
        PerLineRenderData::calc_rendered_row_height(&Ok(None), &tokens, &[], edited)
    };
    assert_eq!(5, height(Some(5)));
    assert!(height(None) >= 3);
    let plain = [Token { ptr: &text, typ: TokenType::StringLiteral }];
    assert_eq!(
        1,
        PerLineRenderData::calc_rendered_row_height(&Err(()), &plain, &[], None)
    );
}

#[test]
fn new_line_has_no_id_and_shows_decimals() {
    let data = LineData::default();
    assert_eq!(0, data.line_id);
    assert_eq!(ResultFormat::Dec, data.result_format);
}
