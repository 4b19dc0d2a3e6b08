use tico::syntax::detect::{detect, detect_path, detect_with_override, file_extension};
use tico::syntax::languages::{find_by_name, names, parse_emacs_modeline, parse_vim_modeline};
use tico::syntax::{find_heredoc_terminator, heredoc_language_name, looks_numeric, normalize_capture, Scope};

#[test]
fn listed_names_are_sorted_and_nonempty() {
    let names = names();
    assert!(names.contains(&"perl"));
    assert!(names.contains(&"sql"));
    let mut sorted = names.clone();
    sorted.sort_unstable();
    assert_eq!(names, sorted);
}

#[test]
fn normalize_capture_renames_nvim_conventions() {
    let n = |s: &str| normalize_capture(s);
    assert_eq!(n("number").as_deref(), Some("constant.numeric"));
    assert_eq!(n("float").as_deref(), Some("constant.numeric.float"));
    assert_eq!(n("conditional").as_deref(), Some("keyword.control.conditional"));
    assert_eq!(n("keyword.import").as_deref(), Some("keyword.control.import"));
    assert_eq!(n("property").as_deref(), Some("variable.other.member"));
    assert_eq!(n("text.title").as_deref(), Some("markup.heading"));
    assert_eq!(n("string.elm").as_deref(), Some("string"));
    assert_eq!(n("function.elm").as_deref(), Some("function"));
    assert_eq!(n("keyword.control.import").as_deref(), Some("keyword.control.import"));
    assert_eq!(n("variable.builtin").as_deref(), Some("variable.builtin"));
    assert_eq!(n("punctuation.section.braces").as_deref(), Some("punctuation.section.braces"));
    assert_eq!(n("property.foo").as_deref(), Some("variable.other.member.foo"));
    assert_eq!(n("_name"), None);
    assert_eq!(n("spell"), None);
    assert_eq!(n("source.glsl"), None);
    assert_eq!(n("text.warning"), None);
}

#[test]
fn scopes_intern_to_stable_ids() {
    let a = Scope::intern("keyword.control");
    let b = Scope::intern("keyword.control");
    let c = Scope::intern("keyword");
    assert_eq!(a, b);
    assert_ne!(a, c);
    assert_eq!(a.name(), "keyword.control");
    assert_eq!(c.name(), "keyword");
}

#[test]
fn languages_are_found_by_name_or_alias_in_any_case() {
    assert_eq!(find_by_name("Perl"), Some("perl"));
    assert_eq!(find_by_name("sh"), Some("bash"));
    assert_eq!(find_by_name("C++"), Some("cpp"));
    assert_eq!(find_by_name("klingon"), None);
}

#[test]
fn vim_modelines_name_the_filetype() {
    assert_eq!(parse_vim_modeline("# vim: set ft=perl:").as_deref(), Some("perl"));
    assert_eq!(parse_vim_modeline("// vim: syntax=c").as_deref(), Some("c"));
    assert_eq!(parse_vim_modeline("# vi: filetype=sh ts=4").as_deref(), Some("sh"));
    assert_eq!(parse_vim_modeline("# ex: ts=4:syntax=ruby:").as_deref(), Some("ruby"));
    assert_eq!(parse_vim_modeline("# vim: ts=4 sw=4"), None);
    assert_eq!(parse_vim_modeline("no modeline here"), None);
}

#[test]
fn emacs_modelines_name_the_mode() {
    assert_eq!(parse_emacs_modeline("# -*- mode: perl; coding: utf-8 -*-").as_deref(), Some("perl"));
    assert_eq!(parse_emacs_modeline("/* -*- Mode: C -*- */").as_deref(), Some("C"));
    assert_eq!(parse_emacs_modeline("# -*- Perl -*-").as_deref(), Some("Perl"));
    assert_eq!(parse_emacs_modeline("# -*- coding: utf-8 -*-"), None);
    assert_eq!(parse_emacs_modeline("# -*- unterminated"), None);
}

#[test]
fn heredoc_terminators_are_found_by_line() {
    let text = "cat <<SQL\nselect 1;\nSQL\nrest\n";
    // "SQL" starts the third line, at character 20.
    assert_eq!(find_heredoc_terminator(text, 10, "SQL", false), Some((20, 24)));
    let indented = "x <<~EOS\n  body\n  EOS\n";
    assert_eq!(find_heredoc_terminator(indented, 9, "EOS", true), Some((16, 22)));
    assert_eq!(find_heredoc_terminator(indented, 9, "EOS", false), None);
    assert_eq!(find_heredoc_terminator("a\r\nEND\r\n", 0, "END", false), Some((3, 8)));
}

#[test]
fn heredoc_markers_reduce_to_language_names() {
    assert_eq!(heredoc_language_name("<<~'SQL'"), "SQL");
    assert_eq!(heredoc_language_name("<<-\"PERL\""), "PERL");
    assert_eq!(heredoc_language_name("EOF"), "EOF");
}

#[test]
fn numbers_are_recognized() {
    assert!(looks_numeric("42"));
    assert!(looks_numeric("0x1F"));
    assert!(!looks_numeric("abc"));
}

#[test]
fn detection_goes_file_name_extension_shebang_modeline() {
    assert_eq!(detect(Some("Makefile"), None, ""), Some("make"));
    assert_eq!(detect(Some("x.PL"), Some("PL"), ""), Some("perl"));
    assert_eq!(detect(None, Some("rs"), "#!/usr/bin/env python3\n"), Some("rust"));
    assert_eq!(detect(None, None, "#!/usr/bin/env python3\nprint(1)\n"), Some("python"));
    assert_eq!(detect(None, None, "#!/usr/bin/perl5.34 -w\n"), Some("perl"));
    assert_eq!(detect(None, None, "#!/bin/env\n"), None);
    assert_eq!(detect(None, None, "x\n# vim: set ft=lua:\n"), Some("lua"));
    assert_eq!(detect(None, None, "/* -*- mode: c++ -*- */\n"), Some("cpp"));
    assert_eq!(detect(Some("notes"), None, "plain text\n"), None);
    assert_eq!(detect_path(Some("/src/lib.rs"), ""), Some("rust"));
    assert_eq!(detect_path(Some("/home/u/.bashrc"), ""), Some("bash"));
    assert_eq!(detect_path(None, "#!/bin/sh\n"), Some("bash"));
    assert_eq!(file_extension("a.tar.gz"), Some("gz".to_string()));
    assert_eq!(file_extension(".profile"), None);
    assert_eq!(file_extension("README"), None);
}

#[test]
fn modelines_are_looked_for_in_the_first_and_last_lines_only() {
    let mut text = String::from("# vim: ft=perl\n");
    for _ in 0..20 {
        text.push_str("x\n");
    }
    assert_eq!(detect(None, None, &text), Some("perl"));
    let mut middle = String::new();
    for i in 0..20 {
        if i == 10 {
            middle.push_str("# vim: ft=perl\n");
        } else {
            middle.push_str("x\n");
        }
    }
    assert_eq!(detect(None, None, &middle), None);
}

#[test]
fn override_forces_language_regardless_of_filename() {
    assert_eq!(detect_with_override(Some("foo.txt"), "", Some("perl")), Some("perl"));
}

#[test]
fn override_none_disables_detection() {
    assert!(detect_with_override(Some("foo.pl"), "", Some("none")).is_none());
}

#[test]
fn override_unknown_name_falls_back_to_detection() {
    assert_eq!(detect_with_override(Some("foo.pl"), "", Some("boguslang")), Some("perl"));
}

#[test]
fn perl_extensions() {
    for ext in ["pl", "pm", "t", "xs"] {
        let path = format!("foo.{ext}");
        let lang = detect_path(Some(&path), "").expect("perl file should be detected");
        assert_eq!(lang, "perl");
    }
}
