use matrix_calc::command::{parse_command, Command, Operation, Session, Step};
use matrix_calc::error::{error_message, MatrixError};
use matrix_calc::render::{render_cell, render_matrix, render_row, CELL_WIDTH};

fn std_command(line: &str) -> Command {
    match line.trim().to_lowercase().as_str() {
        "n" => Command::NewMatrix,
        "a" => Command::Operate(Operation::Add),
        "s" => Command::Operate(Operation::Subtract),
        "m" => Command::Operate(Operation::Multiply),
        "q" => Command::Quit,
        _ => Command::Invalid,
    }
}

#[test]
fn cells_are_four_wide_and_right_aligned() {
    assert_eq!(CELL_WIDTH, 4);
    assert_eq!(render_cell(0), "   0");
    assert_eq!(render_cell(7), "   7");
    assert_eq!(render_cell(-7), "  -7");
    assert_eq!(render_cell(42), "  42");
    assert_eq!(render_cell(123), " 123");
    assert_eq!(render_cell(-123), "-123");
    assert_eq!(render_cell(1234), "1234");
    assert_eq!(render_cell(12345), "12345");
    assert_eq!(render_cell(-1234), "-1234");
    assert_eq!(render_cell(i32::MAX), "2147483647");
    assert_eq!(render_cell(i32::MIN), "-2147483648");
}

#[test]
fn cells_agree_with_std_formatting() {
    let mut values: Vec<i32> = (-1200..1200).collect();
    for k in 0..31 {
        let p = 1i32 << k;
        values.extend([p, -p, p - 1, 1 - p, p.wrapping_mul(3), p.wrapping_mul(-5)]);
    }
    for base in [9, 10, 99, 100, 999, 1000, 9999, 10000, 99999, 100000, 999999999, 1000000000] {
        values.extend([base, -base]);
    }
    values.extend([i32::MAX, i32::MIN, i32::MAX - 1, i32::MIN + 1]);
    for v in values {
        assert_eq!(render_cell(v), format!("{:4}", v));
    }
}

#[test]
fn rows_have_no_separators() {
    assert_eq!(render_row(&vec![]), "");
    assert_eq!(render_row(&vec![1, 2, 3]), "   1   2   3");
    assert_eq!(render_row(&vec![-10, 1000, 12345, 6]), " -10100012345   6");
}

#[test]
fn matrix_has_one_line_per_row() {
    assert_eq!(render_matrix(&vec![]), "");
    assert_eq!(render_matrix(&vec![vec![]]), "\n");
    assert_eq!(render_matrix(&vec![vec![1, 2], vec![3, 4]]), "   1   2\n   3   4\n");
    assert_eq!(render_matrix(&vec![vec![19, 22], vec![43, 50]]), "  19  22\n  43  50\n");
    assert_eq!(render_matrix(&vec![vec![-4], vec![100, 2]]), "  -4\n 100   2\n");
}

#[test]
fn messages_name_the_operation() {
    assert_eq!(
        error_message("addition", MatrixError::EmptyMatrix),
        "Error: Cannot perform addition with empty matrices!"
    );
    assert_eq!(
        error_message("subtraction", MatrixError::DimensionMismatch),
        "Error: Matrix dimensions don't match for subtraction!"
    );
    assert_eq!(
        error_message("multiplication", MatrixError::InvalidInput),
        "Error: Invalid input provided for multiplication!"
    );
    assert_eq!(
        error_message("", MatrixError::InvalidInput),
        "Error: Invalid input provided for !"
    );
    assert_eq!(
        error_message(Operation::Multiply.noun(), MatrixError::EmptyMatrix),
        "Error: Cannot perform multiplication with empty matrices!"
    );
}

#[test]
fn operations_have_nouns() {
    assert_eq!(Operation::Add.noun(), "addition");
    assert_eq!(Operation::Subtract.noun(), "subtraction");
    assert_eq!(Operation::Multiply.noun(), "multiplication");
}

#[test]
fn commands_are_single_letters_in_either_case() {
    assert_eq!(parse_command("n"), Command::NewMatrix);
    assert_eq!(parse_command("N\n"), Command::NewMatrix);
    assert_eq!(parse_command("  a "), Command::Operate(Operation::Add));
    assert_eq!(parse_command("S"), Command::Operate(Operation::Subtract));
    assert_eq!(parse_command("\tm\r\n"), Command::Operate(Operation::Multiply));
    assert_eq!(parse_command("Q"), Command::Quit);
    assert_eq!(parse_command("q\n"), Command::Quit);
    assert_eq!(parse_command(""), Command::Invalid);
    assert_eq!(parse_command("\n"), Command::Invalid);
    assert_eq!(parse_command("x"), Command::Invalid);
    assert_eq!(parse_command("nn"), Command::Invalid);
    assert_eq!(parse_command("n a"), Command::Invalid);
    assert_eq!(parse_command("quit"), Command::Invalid);
    assert_eq!(parse_command("1"), Command::Invalid);
}

#[test]
fn commands_agree_with_std_trim_and_lowercase() {
    for c in '\0'..=char::MAX {
        let line = c.to_string();
        assert_eq!(parse_command(&line), std_command(&line), "{:?}", c);
    }
    for first in ['n', 'A', ' ', '\n', 'q', 'x', '\u{130}', '\u{3a3}'] {
        for second in ['n', 'S', ' ', '\t', 'm', '\u{307}', '\u{2028}'] {
            for third in ['q', ' ', '\n', 'M', 'z'] {
                let line: String = [first, second, third].iter().collect();
                assert_eq!(parse_command(&line), std_command(&line), "{:?}", line);
            }
        }
    }
}

#[test]
fn operations_need_a_matrix() {
    let mut session = Session::new();
    assert_eq!(session.current(), None);
    for op in [Operation::Add, Operation::Subtract, Operation::Multiply] {
        assert_eq!(session.step(Command::Operate(op)), Step::NeedMatrix);
    }
    assert_eq!(session.step(Command::NewMatrix), Step::ReadMatrix);
    assert_eq!(session.step(Command::Quit), Step::Quit);
    assert_eq!(session.step(Command::Invalid), Step::Retry);
    assert_eq!(session.current(), None);

    session.load(vec![vec![1, 2]]);
    assert_eq!(session.current(), Some(&vec![vec![1, 2]]));
    for op in [Operation::Add, Operation::Subtract, Operation::Multiply] {
        assert_eq!(session.step(Command::Operate(op)), Step::Operate(op));
    }
    assert_eq!(session.step(Command::NewMatrix), Step::ReadMatrix);
    assert_eq!(session.step(Command::Quit), Step::Quit);
    assert_eq!(session.step(Command::Invalid), Step::Retry);
}

#[test]
fn a_new_matrix_replaces_the_old_one() {
    let mut session = Session::new();
    session.load(vec![vec![1]]);
    session.load(vec![vec![2, 3], vec![4, 5]]);
    assert_eq!(session.current(), Some(&vec![vec![2, 3], vec![4, 5]]));
    session.load(vec![]);
    assert_eq!(session.current(), Some(&vec![]));
    assert_eq!(
        session.step(Command::Operate(Operation::Add)),
        Step::Operate(Operation::Add)
    );
}
