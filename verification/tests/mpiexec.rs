use empire::mpiexec::{spawn_info_of, split_commands};

fn words(line: &[&str]) -> Vec<String> {
    line.iter().map(|word| String::from(*word)).collect()
}

#[test]
fn commands_are_parted_at_colons() {
    let line = words(&["a", "-n", "2", ":", "b", "--", "x"]);
    assert_eq!(split_commands(&line), vec![words(&["a", "-n", "2"]), words(&["b", "--", "x"])]);
}

#[test]
fn every_colon_begins_a_command() {
    assert_eq!(split_commands(&words(&[])), vec![words(&[])]);
    assert_eq!(split_commands(&words(&["a"])), vec![words(&["a"])]);
    assert_eq!(split_commands(&words(&[":"])), vec![words(&[]), words(&[])]);
    assert_eq!(split_commands(&words(&["a", ":"])), vec![words(&["a"]), words(&[])]);
    assert_eq!(
        split_commands(&words(&[":", ":", "b"])),
        vec![words(&[]), words(&[]), words(&["b"])]
    );
    assert_eq!(split_commands(&words(&["a:b", "::", ""])), vec![words(&["a:b", "::", ""])]);
}

#[test]
fn split_commands_agrees_with_slice_split() {
    let lines: [&[&str]; 6] = [
        &[],
        &[":"],
        &["a", ":", "b", ":", "c"],
        &["a", "b", ":", ":"],
        &[":", "a"],
        &["x", "y", "z"],
    ];
    for line in lines.iter() {
        let line = words(line);
        let expected: Vec<Vec<String>> =
            line.split(|word| word == ":").map(|group| group.to_vec()).collect();
        assert_eq!(split_commands(&line), expected);
    }
}

#[test]
fn spawn_info_takes_the_count_option() {
    let info = spawn_info_of(String::from("tool"), words(&["-x"]), Some("3"));
    assert_eq!(info.command(), "tool");
    assert_eq!(info.args(), &words(&["-x"]));
    assert_eq!(info.procs(), 3);
    let info = spawn_info_of(String::from("tool"), words(&[]), None);
    assert_eq!(info.procs(), 1);
    let info = spawn_info_of(String::from("tool"), words(&[]), Some("0"));
    assert_eq!(info.procs(), 0);
}
