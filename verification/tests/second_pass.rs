use caller_modpath_aggregator::second_pass::{link_argument, render_command_line, second_pass_args};

#[test]
fn the_link_argument_joins_name_and_path() {
    assert_eq!(link_argument("mylib", "/t/debug/libmylib.so"), "mylib=/t/debug/libmylib.so");
}

#[test]
fn the_argument_list_is_exactly_the_expand_invocation() {
    let args = second_pass_args("mylib", "/t/libmylib.so", "/p/src/main.rs");
    let expect = vec![
        "-Z",
        "unpretty=expanded",
        "-Z",
        "unstable-options",
        "--edition=2021",
        "--color=never",
        "--extern",
        "mylib=/t/libmylib.so",
        "/p/src/main.rs",
    ];
    assert_eq!(args, expect);
}

#[test]
fn the_rendered_command_line_spaces_the_arguments() {
    let args = second_pass_args("mylib", "/t/libmylib.so", "/p/src/main.rs");
    assert_eq!(
        render_command_line(&args),
        "rustc -Z unpretty=expanded -Z unstable-options --edition=2021 --color=never --extern \
         mylib=/t/libmylib.so /p/src/main.rs"
    );
}

#[test]
fn an_empty_argument_list_renders_the_bare_compiler_name() {
    assert_eq!(render_command_line(&Vec::new()), "rustc");
}
