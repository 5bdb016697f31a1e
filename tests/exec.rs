use autobotrobot::{
    execution_post, extract_code_block, plan_exec, resolve_language, result_post, to_code_block,
    truncate, CodeBlock, ExecutionRequest, Post,
};

fn request(command: &str, source: &str) -> ExecutionRequest {
    ExecutionRequest { command: command.to_string(), source: source.to_string() }
}

#[test]
fn python_block_is_planned() {
    let msg = "++exec ```py\nprint(1)\n```";
    let block = extract_code_block(msg).unwrap();
    assert_eq!(block.language, "py");
    assert_eq!(block.body, "print(1)\n");
    assert_eq!(
        plan_exec(msg),
        Ok(request("mv main.cpp main.py && python main.py", "print(1)\n"))
    );
}

#[test]
fn unknown_language_is_refused() {
    let msg = "++exec ```brainfuck\n+++.\n```";
    assert_eq!(plan_exec(msg), Err("Unknown language `brainfuck`.".to_string()));
}

#[test]
fn tag_is_lowercased_before_lookup() {
    let msg = "$exec ```PyThOn\nx = 1\n```";
    assert_eq!(extract_code_block(msg).unwrap().language, "PyThOn");
    assert_eq!(plan_exec(msg), Ok(request("mv main.cpp main.py && python main.py", "x = 1\n")));
    let msg = "exec ```BF\n+\n```";
    assert_eq!(plan_exec(msg), Err("Unknown language `bf`.".to_string()));
}

#[test]
fn message_without_block_gets_format_error() {
    let expected = Err("Invalid format; expected a codeblock with a language set.".to_string());
    for msg in [
        "++exec print(1)",
        "++exec ```\nprint(1)\n```",
        "++exec ```py print(1)```",
        "++exec ```py \nprint(1)\n```",
        "++exec ```py\n```",
        "++exec ```py\nprint(1)\n",
        "```py\nprint(1)\n``` exec",
        "++EXEC ```py\nprint(1)\n```",
        "",
    ] {
        assert_eq!(extract_code_block(msg), None, "{:?}", msg);
        assert_eq!(plan_exec(msg), expected, "{:?}", msg);
    }
}

#[test]
fn every_alias_selects_its_command() {
    let cases = [
        ("py", "mv main.cpp main.py && python main.py"),
        ("python", "mv main.cpp main.py && python main.py"),
        ("sh", "mv main.cpp main.sh && sh main.sh"),
        ("shell", "mv main.cpp main.sh && sh main.sh"),
        ("lua", "mv main.cpp main.lua && lua main.lua"),
        ("hs", "mv main.cpp main.hs && runhaskell main.hs"),
        ("haskell", "mv main.cpp main.hs && runhaskell main.hs"),
    ];
    for (lang, cmd) in cases {
        assert_eq!(resolve_language(lang, "code"), Ok(request(cmd, "code")));
    }
    assert_eq!(resolve_language("test", "code"), Ok(request("echo Hello, World!", "")));
}

#[test]
fn tags_outside_the_table_are_named() {
    for lang in ["rust", "pyth", "p", "", "Py", "lua5", "c++", "test "] {
        assert_eq!(resolve_language(lang, "x"), Err(format!("Unknown language `{}`.", lang)));
    }
}

#[test]
fn latest_opening_fence_is_taken() {
    let msg = "exec ```py\na\n```\n```sh\nb\n```";
    assert_eq!(
        extract_code_block(msg),
        Some(CodeBlock { language: "sh".to_string(), body: "b\n".to_string() })
    );
}

#[test]
fn body_runs_to_the_last_fence() {
    let msg = "exec ```py\na```b\n``` trailing";
    assert_eq!(
        extract_code_block(msg),
        Some(CodeBlock { language: "py".to_string(), body: "a```b\n".to_string() })
    );
}

#[test]
fn tag_may_use_all_allowed_characters() {
    let msg = "please exec this:```C_c-9+\nint x;```";
    assert_eq!(
        extract_code_block(msg),
        Some(CodeBlock { language: "C_c-9+".to_string(), body: "int x;".to_string() })
    );
}

#[test]
fn body_may_span_lines_and_non_ascii() {
    let msg = "++exec\n```sh\necho é\necho ü\n```";
    assert_eq!(
        plan_exec(msg),
        Ok(request("mv main.cpp main.sh && sh main.sh", "echo é\necho ü\n"))
    );
}

#[test]
fn truncate_counts_code_points() {
    assert_eq!(truncate("héllo", 2), "hé");
    assert_eq!(truncate("héllo", 5), "héllo");
    assert_eq!(truncate("héllo", 9), "héllo");
    assert_eq!(truncate("日本語", 1), "日");
    assert_eq!(truncate("", 0), "");
    assert_eq!(truncate("abc", 0), "");
}

#[test]
fn code_block_wraps_and_cuts() {
    assert_eq!(to_code_block("hi"), "```\nhi\n```");
    assert_eq!(to_code_block(""), "```\n\n```");
    let long: String = std::iter::repeat('é').take(2500).collect();
    let out = to_code_block(&long);
    assert!(out.starts_with("```\n") && out.ends_with("\n```"));
    let inner = &out[4..out.len() - 4];
    assert_eq!(inner.chars().count(), 1990);
    assert!(inner.chars().all(|c| c == 'é'));
    let exact: String = std::iter::repeat('x').take(1990).collect();
    assert_eq!(to_code_block(&exact), format!("```\n{}\n```", exact));
}

#[test]
fn execution_outcome_becomes_reply() {
    assert_eq!(execution_post(Ok("1\n".to_string())), Post::Content("```\n1\n\n```".to_string()));
    assert_eq!(
        execution_post(Err("connection refused".to_string())),
        Post::Error("connection refused".to_string())
    );
}

#[test]
fn computation_becomes_reply() {
    assert_eq!(result_post(Ok("4".to_string())), Post::Result("4".to_string()));
    assert_eq!(result_post(Err("bad".to_string())), Post::Error("bad".to_string()));
}

#[test]
fn aliases_match_in_any_letter_case() {
    let cases = [
        ("TEST", "echo Hello, World!", ""),
        ("PY", "mv main.cpp main.py && python main.py", "x\n"),
        ("Shell", "mv main.cpp main.sh && sh main.sh", "x\n"),
        ("LuA", "mv main.cpp main.lua && lua main.lua", "x\n"),
        ("HASKELL", "mv main.cpp main.hs && runhaskell main.hs", "x\n"),
        ("Hs", "mv main.cpp main.hs && runhaskell main.hs", "x\n"),
    ];
    for (tag, cmd, source) in cases {
        let msg = format!("++exec ```{}\nx\n```", tag);
        assert_eq!(plan_exec(&msg), Ok(request(cmd, source)), "{}", tag);
    }
}
