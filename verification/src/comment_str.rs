//! Comment delimiters of the languages the server understands, looked up by
//! file extension.

use vstd::prelude::*;

use crate::commands::{CommandError, CommandResult};
use crate::text::{chars_of, str_eq, utf8_len};

verus! {

/// Delimiters of a block comment.
#[derive(Debug, Clone, Copy)]
pub struct MultilineCommentInfo {
    pub start: &'static str,
    pub end: &'static str,
}

/// Comment delimiters of one language.
#[derive(Debug, Clone, Copy)]
pub struct CommentStrInfo {
    singleline: &'static str,
    multiline: Option<MultilineCommentInfo>,
}

/// The comment syntax of a language as plain sequences: the line comment
/// marker and, where the language has them, the block comment delimiters.
pub struct CommentSyntax {
    pub singleline: Seq<char>,
    pub multiline: Option<(Seq<char>, Seq<char>)>,
}

pub open spec fn c_like() -> CommentSyntax {
    CommentSyntax { singleline: "//"@, multiline: Some(("/*"@, "*/"@)) }
}

pub open spec fn line_only(marker: Seq<char>) -> CommentSyntax {
    CommentSyntax { singleline: marker, multiline: None }
}

/// The table of known extensions.
pub open spec fn comment_syntax(ext: Seq<char>) -> Option<CommentSyntax> {
    if ext == "rs"@ || ext == "c"@ || ext == "cpp"@ || ext == "java"@ || ext == "js"@
        || ext == "php"@ || ext == "cs"@ || ext == "swift"@ || ext == "kt"@ || ext == "v"@
        || ext == "go"@ || ext == "d"@ || ext == "scala"@ {
        Some(c_like())
    } else if ext == "py"@ || ext == "rb"@ || ext == "pl"@ || ext == "sh"@ || ext == "ex"@
        || ext == "r"@ {
        Some(line_only("#"@))
    } else if ext == "lua"@ {
        Some(CommentSyntax { singleline: "--"@, multiline: Some(("--[["@, "]]"@)) })
    } else if ext == "hs"@ || ext == "sql"@ {
        Some(line_only("--"@))
    } else if ext == "erl"@ {
        Some(line_only("%"@))
    } else if ext == "html"@ || ext == "xml"@ {
        Some(line_only("<!--"@))
    } else if ext == "cob"@ {
        Some(line_only("*"@))
    } else if ext == "f90"@ {
        Some(line_only("!"@))
    } else {
        None
    }
}

/// The index of the first position, among those both sequences have, where
/// they hold different characters.
pub open spec fn first_difference(a: Seq<char>, b: Seq<char>) -> Option<nat> {
    if exists|i: int| 0 <= i < a.len() && i < b.len() && a[i] != b[i] {
        Some(
            (choose|i: int|
                0 <= i < a.len() && i < b.len() && a[i] != b[i] && forall|j: int|
                    0 <= j < i ==> a[j] == b[j]) as nat,
        )
    } else {
        None
    }
}

/// A delimiter the lexer can work with: non-empty, and at most four
/// characters and four bytes long.
pub open spec fn delimiter_ok(s: Seq<char>) -> bool {
    1 <= s.len() <= 4 && utf8_len(s) <= 4
}

pub open spec fn syntax_ok(syn: CommentSyntax) -> bool {
    &&& delimiter_ok(syn.singleline)
    &&& match syn.multiline {
        Some((start, end)) => delimiter_ok(start) && delimiter_ok(end),
        None => true,
    }
}

proof fn lemma_ascii_delimiter(s: Seq<char>)
    requires
        1 <= s.len() <= 4,
        forall|i: int| 0 <= i < s.len() ==> (s[i] as u32) < 0x80,
    ensures
        delimiter_ok(s),
{
    reveal_with_fuel(vstd::utf8::encode_utf8, 5);
    let s1 = s.drop_first();
    if s.len() >= 2 {
        let s2 = s1.drop_first();
        assert(s1[0] == s[1]);
        if s.len() >= 3 {
            let s3 = s2.drop_first();
            assert(s2[0] == s[2]);
            if s.len() == 4 {
                assert(s3[0] == s[3]);
                assert(s3.drop_first().len() == 0);
            } else {
                assert(s3.len() == 0);
            }
        } else {
            assert(s2.len() == 0);
        }
    } else {
        assert(s1.len() == 0);
    }
}

proof fn lemma_entry_rs()
    ensures
        comment_syntax("rs"@) == Some(CommentSyntax { singleline: "//"@, multiline: Some(("/*"@, "*/"@)) }),
{
    reveal_strlit("rs");
    assert("rs"@.len() == 2);
}

proof fn lemma_entry_c()
    ensures
        comment_syntax("c"@) == Some(CommentSyntax { singleline: "//"@, multiline: Some(("/*"@, "*/"@)) }),
{
    reveal_strlit("c");
    reveal_strlit("rs");
    assert("c"@.len() == 1);
    assert("rs"@.len() == 2);
    assert("c"@ != "rs"@);
}

proof fn lemma_entry_cpp()
    ensures
        comment_syntax("cpp"@) == Some(CommentSyntax { singleline: "//"@, multiline: Some(("/*"@, "*/"@)) }),
{
    reveal_strlit("c");
    reveal_strlit("cpp");
    reveal_strlit("rs");
    assert("c"@.len() == 1);
    assert("cpp"@.len() == 3);
    assert("rs"@.len() == 2);
    assert("cpp"@ != "c"@);
    assert("cpp"@ != "rs"@);
}

proof fn lemma_entry_java()
    ensures
        comment_syntax("java"@) == Some(CommentSyntax { singleline: "//"@, multiline: Some(("/*"@, "*/"@)) }),
{
    reveal_strlit("c");
    reveal_strlit("cpp");
    reveal_strlit("java");
    reveal_strlit("rs");
    assert("c"@.len() == 1);
    assert("cpp"@.len() == 3);
    assert("java"@.len() == 4);
    assert("rs"@.len() == 2);
    assert("java"@ != "c"@);
    assert("java"@ != "cpp"@);
    assert("java"@ != "rs"@);
}

proof fn lemma_entry_js()
    ensures
        comment_syntax("js"@) == Some(CommentSyntax { singleline: "//"@, multiline: Some(("/*"@, "*/"@)) }),
{
    reveal_strlit("c");
    reveal_strlit("cpp");
    reveal_strlit("java");
    reveal_strlit("js");
    reveal_strlit("rs");
    assert("c"@.len() == 1);
    assert("cpp"@.len() == 3);
    assert("java"@.len() == 4);
    assert("js"@.len() == 2);
    assert("rs"@.len() == 2);
    assert("js"@[0] != "rs"@[0]);
    assert("js"@ != "c"@);
    assert("js"@ != "cpp"@);
    assert("js"@ != "java"@);
    assert("js"@ != "rs"@);
}

proof fn lemma_entry_py()
    ensures
        comment_syntax("py"@) == Some(CommentSyntax { singleline: "#"@, multiline: None }),
{
    reveal_strlit("c");
    reveal_strlit("cpp");
    reveal_strlit("cs");
    reveal_strlit("d");
    reveal_strlit("go");
    reveal_strlit("java");
    reveal_strlit("js");
    reveal_strlit("kt");
    reveal_strlit("php");
    reveal_strlit("py");
    reveal_strlit("rs");
    reveal_strlit("scala");
    reveal_strlit("swift");
    reveal_strlit("v");
    assert("c"@.len() == 1);
    assert("cpp"@.len() == 3);
    assert("cs"@.len() == 2);
    assert("d"@.len() == 1);
    assert("go"@.len() == 2);
    assert("java"@.len() == 4);
    assert("js"@.len() == 2);
    assert("kt"@.len() == 2);
    assert("php"@.len() == 3);
    assert("py"@.len() == 2);
    assert("rs"@.len() == 2);
    assert("scala"@.len() == 5);
    assert("swift"@.len() == 5);
    assert("v"@.len() == 1);
    assert("py"@[0] != "rs"@[0]);
    assert("py"@[0] != "js"@[0]);
    assert("py"@[0] != "cs"@[0]);
    assert("py"@[0] != "kt"@[0]);
    assert("py"@[0] != "go"@[0]);
    assert("py"@ != "c"@);
    assert("py"@ != "cpp"@);
    assert("py"@ != "cs"@);
    assert("py"@ != "d"@);
    assert("py"@ != "go"@);
    assert("py"@ != "java"@);
    assert("py"@ != "js"@);
    assert("py"@ != "kt"@);
    assert("py"@ != "php"@);
    assert("py"@ != "rs"@);
    assert("py"@ != "scala"@);
    assert("py"@ != "swift"@);
    assert("py"@ != "v"@);
}

proof fn lemma_entry_rb()
    ensures
        comment_syntax("rb"@) == Some(CommentSyntax { singleline: "#"@, multiline: None }),
{
    reveal_strlit("c");
    reveal_strlit("cpp");
    reveal_strlit("cs");
    reveal_strlit("d");
    reveal_strlit("go");
    reveal_strlit("java");
    reveal_strlit("js");
    reveal_strlit("kt");
    reveal_strlit("php");
    reveal_strlit("py");
    reveal_strlit("rb");
    reveal_strlit("rs");
    reveal_strlit("scala");
    reveal_strlit("swift");
    reveal_strlit("v");
    assert("c"@.len() == 1);
    assert("cpp"@.len() == 3);
    assert("cs"@.len() == 2);
    assert("d"@.len() == 1);
    assert("go"@.len() == 2);
    assert("java"@.len() == 4);
    assert("js"@.len() == 2);
    assert("kt"@.len() == 2);
    assert("php"@.len() == 3);
    assert("py"@.len() == 2);
    assert("rb"@.len() == 2);
    assert("rs"@.len() == 2);
    assert("scala"@.len() == 5);
    assert("swift"@.len() == 5);
    assert("v"@.len() == 1);
    assert("rb"@[1] != "rs"@[1]);
    assert("rb"@[0] != "js"@[0]);
    assert("rb"@[0] != "cs"@[0]);
    assert("rb"@[0] != "kt"@[0]);
    assert("rb"@[0] != "go"@[0]);
    assert("rb"@[0] != "py"@[0]);
    assert("rb"@ != "c"@);
    assert("rb"@ != "cpp"@);
    assert("rb"@ != "cs"@);
    assert("rb"@ != "d"@);
    assert("rb"@ != "go"@);
    assert("rb"@ != "java"@);
    assert("rb"@ != "js"@);
    assert("rb"@ != "kt"@);
    assert("rb"@ != "php"@);
    assert("rb"@ != "py"@);
    assert("rb"@ != "rs"@);
    assert("rb"@ != "scala"@);
    assert("rb"@ != "swift"@);
    assert("rb"@ != "v"@);
}

proof fn lemma_entry_php()
    ensures
        comment_syntax("php"@) == Some(CommentSyntax { singleline: "//"@, multiline: Some(("/*"@, "*/"@)) }),
{
    reveal_strlit("c");
    reveal_strlit("cpp");
    reveal_strlit("java");
    reveal_strlit("js");
    reveal_strlit("php");
    reveal_strlit("rs");
    assert("c"@.len() == 1);
    assert("cpp"@.len() == 3);
    assert("java"@.len() == 4);
    assert("js"@.len() == 2);
    assert("php"@.len() == 3);
    assert("rs"@.len() == 2);
    assert("php"@[0] != "cpp"@[0]);
    assert("php"@ != "c"@);
    assert("php"@ != "cpp"@);
    assert("php"@ != "java"@);
    assert("php"@ != "js"@);
    assert("php"@ != "rs"@);
}

proof fn lemma_entry_cs()
    ensures
        comment_syntax("cs"@) == Some(CommentSyntax { singleline: "//"@, multiline: Some(("/*"@, "*/"@)) }),
{
    reveal_strlit("c");
    reveal_strlit("cpp");
    reveal_strlit("cs");
    reveal_strlit("java");
    reveal_strlit("js");
    reveal_strlit("php");
    reveal_strlit("rs");
    assert("c"@.len() == 1);
    assert("cpp"@.len() == 3);
    assert("cs"@.len() == 2);
    assert("java"@.len() == 4);
    assert("js"@.len() == 2);
    assert("php"@.len() == 3);
    assert("rs"@.len() == 2);
    assert("cs"@[0] != "rs"@[0]);
    assert("cs"@[0] != "js"@[0]);
    assert("cs"@ != "c"@);
    assert("cs"@ != "cpp"@);
    assert("cs"@ != "java"@);
    assert("cs"@ != "js"@);
    assert("cs"@ != "php"@);
    assert("cs"@ != "rs"@);
}

proof fn lemma_entry_swift()
    ensures
        comment_syntax("swift"@) == Some(CommentSyntax { singleline: "//"@, multiline: Some(("/*"@, "*/"@)) }),
{
    reveal_strlit("c");
    reveal_strlit("cpp");
    reveal_strlit("cs");
    reveal_strlit("java");
    reveal_strlit("js");
    reveal_strlit("php");
    reveal_strlit("rs");
    reveal_strlit("swift");
    assert("c"@.len() == 1);
    assert("cpp"@.len() == 3);
    assert("cs"@.len() == 2);
    assert("java"@.len() == 4);
    assert("js"@.len() == 2);
    assert("php"@.len() == 3);
    assert("rs"@.len() == 2);
    assert("swift"@.len() == 5);
    assert("swift"@ != "c"@);
    assert("swift"@ != "cpp"@);
    assert("swift"@ != "cs"@);
    assert("swift"@ != "java"@);
    assert("swift"@ != "js"@);
    assert("swift"@ != "php"@);
    assert("swift"@ != "rs"@);
}

proof fn lemma_entry_kt()
    ensures
        comment_syntax("kt"@) == Some(CommentSyntax { singleline: "//"@, multiline: Some(("/*"@, "*/"@)) }),
{
    reveal_strlit("c");
    reveal_strlit("cpp");
    reveal_strlit("cs");
    reveal_strlit("java");
    reveal_strlit("js");
    reveal_strlit("kt");
    reveal_strlit("php");
    reveal_strlit("rs");
    reveal_strlit("swift");
    assert("c"@.len() == 1);
    assert("cpp"@.len() == 3);
    assert("cs"@.len() == 2);
    assert("java"@.len() == 4);
    assert("js"@.len() == 2);
    assert("kt"@.len() == 2);
    assert("php"@.len() == 3);
    assert("rs"@.len() == 2);
    assert("swift"@.len() == 5);
    assert("kt"@[0] != "rs"@[0]);
    assert("kt"@[0] != "js"@[0]);
    assert("kt"@[0] != "cs"@[0]);
    assert("kt"@ != "c"@);
    assert("kt"@ != "cpp"@);
    assert("kt"@ != "cs"@);
    assert("kt"@ != "java"@);
    assert("kt"@ != "js"@);
    assert("kt"@ != "php"@);
    assert("kt"@ != "rs"@);
    assert("kt"@ != "swift"@);
}

proof fn lemma_entry_pl()
    ensures
        comment_syntax("pl"@) == Some(CommentSyntax { singleline: "#"@, multiline: None }),
{
    reveal_strlit("c");
    reveal_strlit("cpp");
    reveal_strlit("cs");
    reveal_strlit("d");
    reveal_strlit("go");
    reveal_strlit("java");
    reveal_strlit("js");
    reveal_strlit("kt");
    reveal_strlit("php");
    reveal_strlit("pl");
    reveal_strlit("py");
    reveal_strlit("rb");
    reveal_strlit("rs");
    reveal_strlit("scala");
    reveal_strlit("swift");
    reveal_strlit("v");
    assert("c"@.len() == 1);
    assert("cpp"@.len() == 3);
    assert("cs"@.len() == 2);
    assert("d"@.len() == 1);
    assert("go"@.len() == 2);
    assert("java"@.len() == 4);
    assert("js"@.len() == 2);
    assert("kt"@.len() == 2);
    assert("php"@.len() == 3);
    assert("pl"@.len() == 2);
    assert("py"@.len() == 2);
    assert("rb"@.len() == 2);
    assert("rs"@.len() == 2);
    assert("scala"@.len() == 5);
    assert("swift"@.len() == 5);
    assert("v"@.len() == 1);
    assert("pl"@[0] != "rs"@[0]);
    assert("pl"@[0] != "js"@[0]);
    assert("pl"@[0] != "cs"@[0]);
    assert("pl"@[0] != "kt"@[0]);
    assert("pl"@[0] != "go"@[0]);
    assert("pl"@[1] != "py"@[1]);
    assert("pl"@[0] != "rb"@[0]);
    assert("pl"@ != "c"@);
    assert("pl"@ != "cpp"@);
    assert("pl"@ != "cs"@);
    assert("pl"@ != "d"@);
    assert("pl"@ != "go"@);
    assert("pl"@ != "java"@);
    assert("pl"@ != "js"@);
    assert("pl"@ != "kt"@);
    assert("pl"@ != "php"@);
    assert("pl"@ != "py"@);
    assert("pl"@ != "rb"@);
    assert("pl"@ != "rs"@);
    assert("pl"@ != "scala"@);
    assert("pl"@ != "swift"@);
    assert("pl"@ != "v"@);
}

proof fn lemma_entry_sh()
    ensures
        comment_syntax("sh"@) == Some(CommentSyntax { singleline: "#"@, multiline: None }),
{
    reveal_strlit("c");
    reveal_strlit("cpp");
    reveal_strlit("cs");
    reveal_strlit("d");
    reveal_strlit("go");
    reveal_strlit("java");
    reveal_strlit("js");
    reveal_strlit("kt");
    reveal_strlit("php");
    reveal_strlit("pl");
    reveal_strlit("py");
    reveal_strlit("rb");
    reveal_strlit("rs");
    reveal_strlit("scala");
    reveal_strlit("sh");
    reveal_strlit("swift");
    reveal_strlit("v");
    assert("c"@.len() == 1);
    assert("cpp"@.len() == 3);
    assert("cs"@.len() == 2);
    assert("d"@.len() == 1);
    assert("go"@.len() == 2);
    assert("java"@.len() == 4);
    assert("js"@.len() == 2);
    assert("kt"@.len() == 2);
    assert("php"@.len() == 3);
    assert("pl"@.len() == 2);
    assert("py"@.len() == 2);
    assert("rb"@.len() == 2);
    assert("rs"@.len() == 2);
    assert("scala"@.len() == 5);
    assert("sh"@.len() == 2);
    assert("swift"@.len() == 5);
    assert("v"@.len() == 1);
    assert("sh"@[0] != "rs"@[0]);
    assert("sh"@[0] != "js"@[0]);
    assert("sh"@[0] != "cs"@[0]);
    assert("sh"@[0] != "kt"@[0]);
    assert("sh"@[0] != "go"@[0]);
    assert("sh"@[0] != "py"@[0]);
    assert("sh"@[0] != "rb"@[0]);
    assert("sh"@[0] != "pl"@[0]);
    assert("sh"@ != "c"@);
    assert("sh"@ != "cpp"@);
    assert("sh"@ != "cs"@);
    assert("sh"@ != "d"@);
    assert("sh"@ != "go"@);
    assert("sh"@ != "java"@);
    assert("sh"@ != "js"@);
    assert("sh"@ != "kt"@);
    assert("sh"@ != "php"@);
    assert("sh"@ != "pl"@);
    assert("sh"@ != "py"@);
    assert("sh"@ != "rb"@);
    assert("sh"@ != "rs"@);
    assert("sh"@ != "scala"@);
    assert("sh"@ != "swift"@);
    assert("sh"@ != "v"@);
}

proof fn lemma_entry_lua()
    ensures
        comment_syntax("lua"@) == Some(CommentSyntax { singleline: "--"@, multiline: Some(("--[["@, "]]"@)) }),
{
    reveal_strlit("c");
    reveal_strlit("cpp");
    reveal_strlit("cs");
    reveal_strlit("d");
    reveal_strlit("ex");
    reveal_strlit("go");
    reveal_strlit("java");
    reveal_strlit("js");
    reveal_strlit("kt");
    reveal_strlit("lua");
    reveal_strlit("php");
    reveal_strlit("pl");
    reveal_strlit("py");
    reveal_strlit("r");
    reveal_strlit("rb");
    reveal_strlit("rs");
    reveal_strlit("scala");
    reveal_strlit("sh");
    reveal_strlit("swift");
    reveal_strlit("v");
    assert("c"@.len() == 1);
    assert("cpp"@.len() == 3);
    assert("cs"@.len() == 2);
    assert("d"@.len() == 1);
    assert("ex"@.len() == 2);
    assert("go"@.len() == 2);
    assert("java"@.len() == 4);
    assert("js"@.len() == 2);
    assert("kt"@.len() == 2);
    assert("lua"@.len() == 3);
    assert("php"@.len() == 3);
    assert("pl"@.len() == 2);
    assert("py"@.len() == 2);
    assert("r"@.len() == 1);
    assert("rb"@.len() == 2);
    assert("rs"@.len() == 2);
    assert("scala"@.len() == 5);
    assert("sh"@.len() == 2);
    assert("swift"@.len() == 5);
    assert("v"@.len() == 1);
    assert("lua"@[0] != "cpp"@[0]);
    assert("lua"@[0] != "php"@[0]);
    assert("lua"@ != "c"@);
    assert("lua"@ != "cpp"@);
    assert("lua"@ != "cs"@);
    assert("lua"@ != "d"@);
    assert("lua"@ != "ex"@);
    assert("lua"@ != "go"@);
    assert("lua"@ != "java"@);
    assert("lua"@ != "js"@);
    assert("lua"@ != "kt"@);
    assert("lua"@ != "php"@);
    assert("lua"@ != "pl"@);
    assert("lua"@ != "py"@);
    assert("lua"@ != "r"@);
    assert("lua"@ != "rb"@);
    assert("lua"@ != "rs"@);
    assert("lua"@ != "scala"@);
    assert("lua"@ != "sh"@);
    assert("lua"@ != "swift"@);
    assert("lua"@ != "v"@);
}

proof fn lemma_entry_hs()
    ensures
        comment_syntax("hs"@) == Some(CommentSyntax { singleline: "--"@, multiline: None }),
{
    reveal_strlit("c");
    reveal_strlit("cpp");
    reveal_strlit("cs");
    reveal_strlit("d");
    reveal_strlit("ex");
    reveal_strlit("go");
    reveal_strlit("hs");
    reveal_strlit("java");
    reveal_strlit("js");
    reveal_strlit("kt");
    reveal_strlit("lua");
    reveal_strlit("php");
    reveal_strlit("pl");
    reveal_strlit("py");
    reveal_strlit("r");
    reveal_strlit("rb");
    reveal_strlit("rs");
    reveal_strlit("scala");
    reveal_strlit("sh");
    reveal_strlit("swift");
    reveal_strlit("v");
    assert("c"@.len() == 1);
    assert("cpp"@.len() == 3);
    assert("cs"@.len() == 2);
    assert("d"@.len() == 1);
    assert("ex"@.len() == 2);
    assert("go"@.len() == 2);
    assert("hs"@.len() == 2);
    assert("java"@.len() == 4);
    assert("js"@.len() == 2);
    assert("kt"@.len() == 2);
    assert("lua"@.len() == 3);
    assert("php"@.len() == 3);
    assert("pl"@.len() == 2);
    assert("py"@.len() == 2);
    assert("r"@.len() == 1);
    assert("rb"@.len() == 2);
    assert("rs"@.len() == 2);
    assert("scala"@.len() == 5);
    assert("sh"@.len() == 2);
    assert("swift"@.len() == 5);
    assert("v"@.len() == 1);
    assert("hs"@[0] != "rs"@[0]);
    assert("hs"@[0] != "js"@[0]);
    assert("hs"@[0] != "cs"@[0]);
    assert("hs"@[0] != "kt"@[0]);
    assert("hs"@[0] != "go"@[0]);
    assert("hs"@[0] != "py"@[0]);
    assert("hs"@[0] != "rb"@[0]);
    assert("hs"@[0] != "pl"@[0]);
    assert("hs"@[0] != "sh"@[0]);
    assert("hs"@[0] != "ex"@[0]);
    assert("hs"@ != "c"@);
    assert("hs"@ != "cpp"@);
    assert("hs"@ != "cs"@);
    assert("hs"@ != "d"@);
    assert("hs"@ != "ex"@);
    assert("hs"@ != "go"@);
    assert("hs"@ != "java"@);
    assert("hs"@ != "js"@);
    assert("hs"@ != "kt"@);
    assert("hs"@ != "lua"@);
    assert("hs"@ != "php"@);
    assert("hs"@ != "pl"@);
    assert("hs"@ != "py"@);
    assert("hs"@ != "r"@);
    assert("hs"@ != "rb"@);
    assert("hs"@ != "rs"@);
    assert("hs"@ != "scala"@);
    assert("hs"@ != "sh"@);
    assert("hs"@ != "swift"@);
    assert("hs"@ != "v"@);
}

proof fn lemma_entry_erl()
    ensures
        comment_syntax("erl"@) == Some(CommentSyntax { singleline: "%"@, multiline: None }),
{
    reveal_strlit("c");
    reveal_strlit("cpp");
    reveal_strlit("cs");
    reveal_strlit("d");
    reveal_strlit("erl");
    reveal_strlit("ex");
    reveal_strlit("go");
    reveal_strlit("hs");
    reveal_strlit("java");
    reveal_strlit("js");
    reveal_strlit("kt");
    reveal_strlit("lua");
    reveal_strlit("php");
    reveal_strlit("pl");
    reveal_strlit("py");
    reveal_strlit("r");
    reveal_strlit("rb");
    reveal_strlit("rs");
    reveal_strlit("scala");
    reveal_strlit("sh");
    reveal_strlit("sql");
    reveal_strlit("swift");
    reveal_strlit("v");
    assert("c"@.len() == 1);
    assert("cpp"@.len() == 3);
    assert("cs"@.len() == 2);
    assert("d"@.len() == 1);
    assert("erl"@.len() == 3);
    assert("ex"@.len() == 2);
    assert("go"@.len() == 2);
    assert("hs"@.len() == 2);
    assert("java"@.len() == 4);
    assert("js"@.len() == 2);
    assert("kt"@.len() == 2);
    assert("lua"@.len() == 3);
    assert("php"@.len() == 3);
    assert("pl"@.len() == 2);
    assert("py"@.len() == 2);
    assert("r"@.len() == 1);
    assert("rb"@.len() == 2);
    assert("rs"@.len() == 2);
    assert("scala"@.len() == 5);
    assert("sh"@.len() == 2);
    assert("sql"@.len() == 3);
    assert("swift"@.len() == 5);
    assert("v"@.len() == 1);
    assert("erl"@[0] != "cpp"@[0]);
    assert("erl"@[0] != "php"@[0]);
    assert("erl"@[0] != "lua"@[0]);
    assert("erl"@[0] != "sql"@[0]);
    assert("erl"@ != "c"@);
    assert("erl"@ != "cpp"@);
    assert("erl"@ != "cs"@);
    assert("erl"@ != "d"@);
    assert("erl"@ != "ex"@);
    assert("erl"@ != "go"@);
    assert("erl"@ != "hs"@);
    assert("erl"@ != "java"@);
    assert("erl"@ != "js"@);
    assert("erl"@ != "kt"@);
    assert("erl"@ != "lua"@);
    assert("erl"@ != "php"@);
    assert("erl"@ != "pl"@);
    assert("erl"@ != "py"@);
    assert("erl"@ != "r"@);
    assert("erl"@ != "rb"@);
    assert("erl"@ != "rs"@);
    assert("erl"@ != "scala"@);
    assert("erl"@ != "sh"@);
    assert("erl"@ != "sql"@);
    assert("erl"@ != "swift"@);
    assert("erl"@ != "v"@);
}

proof fn lemma_entry_ex()
    ensures
        comment_syntax("ex"@) == Some(CommentSyntax { singleline: "#"@, multiline: None }),
{
    reveal_strlit("c");
    reveal_strlit("cpp");
    reveal_strlit("cs");
    reveal_strlit("d");
    reveal_strlit("ex");
    reveal_strlit("go");
    reveal_strlit("java");
    reveal_strlit("js");
    reveal_strlit("kt");
    reveal_strlit("php");
    reveal_strlit("pl");
    reveal_strlit("py");
    reveal_strlit("rb");
    reveal_strlit("rs");
    reveal_strlit("scala");
    reveal_strlit("sh");
    reveal_strlit("swift");
    reveal_strlit("v");
    assert("c"@.len() == 1);
    assert("cpp"@.len() == 3);
    assert("cs"@.len() == 2);
    assert("d"@.len() == 1);
    assert("ex"@.len() == 2);
    assert("go"@.len() == 2);
    assert("java"@.len() == 4);
    assert("js"@.len() == 2);
    assert("kt"@.len() == 2);
    assert("php"@.len() == 3);
    assert("pl"@.len() == 2);
    assert("py"@.len() == 2);
    assert("rb"@.len() == 2);
    assert("rs"@.len() == 2);
    assert("scala"@.len() == 5);
    assert("sh"@.len() == 2);
    assert("swift"@.len() == 5);
    assert("v"@.len() == 1);
    assert("ex"@[0] != "rs"@[0]);
    assert("ex"@[0] != "js"@[0]);
    assert("ex"@[0] != "cs"@[0]);
    assert("ex"@[0] != "kt"@[0]);
    assert("ex"@[0] != "go"@[0]);
    assert("ex"@[0] != "py"@[0]);
    assert("ex"@[0] != "rb"@[0]);
    assert("ex"@[0] != "pl"@[0]);
    assert("ex"@[0] != "sh"@[0]);
    assert("ex"@ != "c"@);
    assert("ex"@ != "cpp"@);
    assert("ex"@ != "cs"@);
    assert("ex"@ != "d"@);
    assert("ex"@ != "go"@);
    assert("ex"@ != "java"@);
    assert("ex"@ != "js"@);
    assert("ex"@ != "kt"@);
    assert("ex"@ != "php"@);
    assert("ex"@ != "pl"@);
    assert("ex"@ != "py"@);
    assert("ex"@ != "rb"@);
    assert("ex"@ != "rs"@);
    assert("ex"@ != "scala"@);
    assert("ex"@ != "sh"@);
    assert("ex"@ != "swift"@);
    assert("ex"@ != "v"@);
}

proof fn lemma_entry_html()
    ensures
        comment_syntax("html"@) == Some(CommentSyntax { singleline: "<!--"@, multiline: None }),
{
    reveal_strlit("c");
    reveal_strlit("cpp");
    reveal_strlit("cs");
    reveal_strlit("d");
    reveal_strlit("erl");
    reveal_strlit("ex");
    reveal_strlit("go");
    reveal_strlit("hs");
    reveal_strlit("html");
    reveal_strlit("java");
    reveal_strlit("js");
    reveal_strlit("kt");
    reveal_strlit("lua");
    reveal_strlit("php");
    reveal_strlit("pl");
    reveal_strlit("py");
    reveal_strlit("r");
    reveal_strlit("rb");
    reveal_strlit("rs");
    reveal_strlit("scala");
    reveal_strlit("sh");
    reveal_strlit("sql");
    reveal_strlit("swift");
    reveal_strlit("v");
    assert("c"@.len() == 1);
    assert("cpp"@.len() == 3);
    assert("cs"@.len() == 2);
    assert("d"@.len() == 1);
    assert("erl"@.len() == 3);
    assert("ex"@.len() == 2);
    assert("go"@.len() == 2);
    assert("hs"@.len() == 2);
    assert("html"@.len() == 4);
    assert("java"@.len() == 4);
    assert("js"@.len() == 2);
    assert("kt"@.len() == 2);
    assert("lua"@.len() == 3);
    assert("php"@.len() == 3);
    assert("pl"@.len() == 2);
    assert("py"@.len() == 2);
    assert("r"@.len() == 1);
    assert("rb"@.len() == 2);
    assert("rs"@.len() == 2);
    assert("scala"@.len() == 5);
    assert("sh"@.len() == 2);
    assert("sql"@.len() == 3);
    assert("swift"@.len() == 5);
    assert("v"@.len() == 1);
    assert("html"@[0] != "java"@[0]);
    assert("html"@ != "c"@);
    assert("html"@ != "cpp"@);
    assert("html"@ != "cs"@);
    assert("html"@ != "d"@);
    assert("html"@ != "erl"@);
    assert("html"@ != "ex"@);
    assert("html"@ != "go"@);
    assert("html"@ != "hs"@);
    assert("html"@ != "java"@);
    assert("html"@ != "js"@);
    assert("html"@ != "kt"@);
    assert("html"@ != "lua"@);
    assert("html"@ != "php"@);
    assert("html"@ != "pl"@);
    assert("html"@ != "py"@);
    assert("html"@ != "r"@);
    assert("html"@ != "rb"@);
    assert("html"@ != "rs"@);
    assert("html"@ != "scala"@);
    assert("html"@ != "sh"@);
    assert("html"@ != "sql"@);
    assert("html"@ != "swift"@);
    assert("html"@ != "v"@);
}

proof fn lemma_entry_xml()
    ensures
        comment_syntax("xml"@) == Some(CommentSyntax { singleline: "<!--"@, multiline: None }),
{
    reveal_strlit("c");
    reveal_strlit("cpp");
    reveal_strlit("cs");
    reveal_strlit("d");
    reveal_strlit("erl");
    reveal_strlit("ex");
    reveal_strlit("go");
    reveal_strlit("hs");
    reveal_strlit("html");
    reveal_strlit("java");
    reveal_strlit("js");
    reveal_strlit("kt");
    reveal_strlit("lua");
    reveal_strlit("php");
    reveal_strlit("pl");
    reveal_strlit("py");
    reveal_strlit("r");
    reveal_strlit("rb");
    reveal_strlit("rs");
    reveal_strlit("scala");
    reveal_strlit("sh");
    reveal_strlit("sql");
    reveal_strlit("swift");
    reveal_strlit("v");
    reveal_strlit("xml");
    assert("c"@.len() == 1);
    assert("cpp"@.len() == 3);
    assert("cs"@.len() == 2);
    assert("d"@.len() == 1);
    assert("erl"@.len() == 3);
    assert("ex"@.len() == 2);
    assert("go"@.len() == 2);
    assert("hs"@.len() == 2);
    assert("html"@.len() == 4);
    assert("java"@.len() == 4);
    assert("js"@.len() == 2);
    assert("kt"@.len() == 2);
    assert("lua"@.len() == 3);
    assert("php"@.len() == 3);
    assert("pl"@.len() == 2);
    assert("py"@.len() == 2);
    assert("r"@.len() == 1);
    assert("rb"@.len() == 2);
    assert("rs"@.len() == 2);
    assert("scala"@.len() == 5);
    assert("sh"@.len() == 2);
    assert("sql"@.len() == 3);
    assert("swift"@.len() == 5);
    assert("v"@.len() == 1);
    assert("xml"@.len() == 3);
    assert("xml"@[0] != "cpp"@[0]);
    assert("xml"@[0] != "php"@[0]);
    assert("xml"@[0] != "lua"@[0]);
    assert("xml"@[0] != "sql"@[0]);
    assert("xml"@[0] != "erl"@[0]);
    assert("xml"@ != "c"@);
    assert("xml"@ != "cpp"@);
    assert("xml"@ != "cs"@);
    assert("xml"@ != "d"@);
    assert("xml"@ != "erl"@);
    assert("xml"@ != "ex"@);
    assert("xml"@ != "go"@);
    assert("xml"@ != "hs"@);
    assert("xml"@ != "html"@);
    assert("xml"@ != "java"@);
    assert("xml"@ != "js"@);
    assert("xml"@ != "kt"@);
    assert("xml"@ != "lua"@);
    assert("xml"@ != "php"@);
    assert("xml"@ != "pl"@);
    assert("xml"@ != "py"@);
    assert("xml"@ != "r"@);
    assert("xml"@ != "rb"@);
    assert("xml"@ != "rs"@);
    assert("xml"@ != "scala"@);
    assert("xml"@ != "sh"@);
    assert("xml"@ != "sql"@);
    assert("xml"@ != "swift"@);
    assert("xml"@ != "v"@);
}

proof fn lemma_entry_sql()
    ensures
        comment_syntax("sql"@) == Some(CommentSyntax { singleline: "--"@, multiline: None }),
{
    reveal_strlit("c");
    reveal_strlit("cpp");
    reveal_strlit("cs");
    reveal_strlit("d");
    reveal_strlit("ex");
    reveal_strlit("go");
    reveal_strlit("hs");
    reveal_strlit("java");
    reveal_strlit("js");
    reveal_strlit("kt");
    reveal_strlit("lua");
    reveal_strlit("php");
    reveal_strlit("pl");
    reveal_strlit("py");
    reveal_strlit("r");
    reveal_strlit("rb");
    reveal_strlit("rs");
    reveal_strlit("scala");
    reveal_strlit("sh");
    reveal_strlit("sql");
    reveal_strlit("swift");
    reveal_strlit("v");
    assert("c"@.len() == 1);
    assert("cpp"@.len() == 3);
    assert("cs"@.len() == 2);
    assert("d"@.len() == 1);
    assert("ex"@.len() == 2);
    assert("go"@.len() == 2);
    assert("hs"@.len() == 2);
    assert("java"@.len() == 4);
    assert("js"@.len() == 2);
    assert("kt"@.len() == 2);
    assert("lua"@.len() == 3);
    assert("php"@.len() == 3);
    assert("pl"@.len() == 2);
    assert("py"@.len() == 2);
    assert("r"@.len() == 1);
    assert("rb"@.len() == 2);
    assert("rs"@.len() == 2);
    assert("scala"@.len() == 5);
    assert("sh"@.len() == 2);
    assert("sql"@.len() == 3);
    assert("swift"@.len() == 5);
    assert("v"@.len() == 1);
    assert("sql"@[0] != "cpp"@[0]);
    assert("sql"@[0] != "php"@[0]);
    assert("sql"@[0] != "lua"@[0]);
    assert("sql"@ != "c"@);
    assert("sql"@ != "cpp"@);
    assert("sql"@ != "cs"@);
    assert("sql"@ != "d"@);
    assert("sql"@ != "ex"@);
    assert("sql"@ != "go"@);
    assert("sql"@ != "hs"@);
    assert("sql"@ != "java"@);
    assert("sql"@ != "js"@);
    assert("sql"@ != "kt"@);
    assert("sql"@ != "lua"@);
    assert("sql"@ != "php"@);
    assert("sql"@ != "pl"@);
    assert("sql"@ != "py"@);
    assert("sql"@ != "r"@);
    assert("sql"@ != "rb"@);
    assert("sql"@ != "rs"@);
    assert("sql"@ != "scala"@);
    assert("sql"@ != "sh"@);
    assert("sql"@ != "swift"@);
    assert("sql"@ != "v"@);
}

proof fn lemma_entry_v()
    ensures
        comment_syntax("v"@) == Some(CommentSyntax { singleline: "//"@, multiline: Some(("/*"@, "*/"@)) }),
{
    reveal_strlit("c");
    reveal_strlit("cpp");
    reveal_strlit("cs");
    reveal_strlit("java");
    reveal_strlit("js");
    reveal_strlit("kt");
    reveal_strlit("php");
    reveal_strlit("rs");
    reveal_strlit("swift");
    reveal_strlit("v");
    assert("c"@.len() == 1);
    assert("cpp"@.len() == 3);
    assert("cs"@.len() == 2);
    assert("java"@.len() == 4);
    assert("js"@.len() == 2);
    assert("kt"@.len() == 2);
    assert("php"@.len() == 3);
    assert("rs"@.len() == 2);
    assert("swift"@.len() == 5);
    assert("v"@.len() == 1);
    assert("v"@[0] != "c"@[0]);
    assert("v"@ != "c"@);
    assert("v"@ != "cpp"@);
    assert("v"@ != "cs"@);
    assert("v"@ != "java"@);
    assert("v"@ != "js"@);
    assert("v"@ != "kt"@);
    assert("v"@ != "php"@);
    assert("v"@ != "rs"@);
    assert("v"@ != "swift"@);
}

proof fn lemma_entry_go()
    ensures
        comment_syntax("go"@) == Some(CommentSyntax { singleline: "//"@, multiline: Some(("/*"@, "*/"@)) }),
{
    reveal_strlit("c");
    reveal_strlit("cpp");
    reveal_strlit("cs");
    reveal_strlit("go");
    reveal_strlit("java");
    reveal_strlit("js");
    reveal_strlit("kt");
    reveal_strlit("php");
    reveal_strlit("rs");
    reveal_strlit("swift");
    reveal_strlit("v");
    assert("c"@.len() == 1);
    assert("cpp"@.len() == 3);
    assert("cs"@.len() == 2);
    assert("go"@.len() == 2);
    assert("java"@.len() == 4);
    assert("js"@.len() == 2);
    assert("kt"@.len() == 2);
    assert("php"@.len() == 3);
    assert("rs"@.len() == 2);
    assert("swift"@.len() == 5);
    assert("v"@.len() == 1);
    assert("go"@[0] != "rs"@[0]);
    assert("go"@[0] != "js"@[0]);
    assert("go"@[0] != "cs"@[0]);
    assert("go"@[0] != "kt"@[0]);
    assert("go"@ != "c"@);
    assert("go"@ != "cpp"@);
    assert("go"@ != "cs"@);
    assert("go"@ != "java"@);
    assert("go"@ != "js"@);
    assert("go"@ != "kt"@);
    assert("go"@ != "php"@);
    assert("go"@ != "rs"@);
    assert("go"@ != "swift"@);
    assert("go"@ != "v"@);
}

proof fn lemma_entry_d()
    ensures
        comment_syntax("d"@) == Some(CommentSyntax { singleline: "//"@, multiline: Some(("/*"@, "*/"@)) }),
{
    reveal_strlit("c");
    reveal_strlit("cpp");
    reveal_strlit("cs");
    reveal_strlit("d");
    reveal_strlit("go");
    reveal_strlit("java");
    reveal_strlit("js");
    reveal_strlit("kt");
    reveal_strlit("php");
    reveal_strlit("rs");
    reveal_strlit("swift");
    reveal_strlit("v");
    assert("c"@.len() == 1);
    assert("cpp"@.len() == 3);
    assert("cs"@.len() == 2);
    assert("d"@.len() == 1);
    assert("go"@.len() == 2);
    assert("java"@.len() == 4);
    assert("js"@.len() == 2);
    assert("kt"@.len() == 2);
    assert("php"@.len() == 3);
    assert("rs"@.len() == 2);
    assert("swift"@.len() == 5);
    assert("v"@.len() == 1);
    assert("d"@[0] != "c"@[0]);
    assert("d"@[0] != "v"@[0]);
    assert("d"@ != "c"@);
    assert("d"@ != "cpp"@);
    assert("d"@ != "cs"@);
    assert("d"@ != "go"@);
    assert("d"@ != "java"@);
    assert("d"@ != "js"@);
    assert("d"@ != "kt"@);
    assert("d"@ != "php"@);
    assert("d"@ != "rs"@);
    assert("d"@ != "swift"@);
    assert("d"@ != "v"@);
}

proof fn lemma_entry_scala()
    ensures
        comment_syntax("scala"@) == Some(CommentSyntax { singleline: "//"@, multiline: Some(("/*"@, "*/"@)) }),
{
    reveal_strlit("c");
    reveal_strlit("cpp");
    reveal_strlit("cs");
    reveal_strlit("d");
    reveal_strlit("go");
    reveal_strlit("java");
    reveal_strlit("js");
    reveal_strlit("kt");
    reveal_strlit("php");
    reveal_strlit("rs");
    reveal_strlit("scala");
    reveal_strlit("swift");
    reveal_strlit("v");
    assert("c"@.len() == 1);
    assert("cpp"@.len() == 3);
    assert("cs"@.len() == 2);
    assert("d"@.len() == 1);
    assert("go"@.len() == 2);
    assert("java"@.len() == 4);
    assert("js"@.len() == 2);
    assert("kt"@.len() == 2);
    assert("php"@.len() == 3);
    assert("rs"@.len() == 2);
    assert("scala"@.len() == 5);
    assert("swift"@.len() == 5);
    assert("v"@.len() == 1);
    assert("scala"@[1] != "swift"@[1]);
    assert("scala"@ != "c"@);
    assert("scala"@ != "cpp"@);
    assert("scala"@ != "cs"@);
    assert("scala"@ != "d"@);
    assert("scala"@ != "go"@);
    assert("scala"@ != "java"@);
    assert("scala"@ != "js"@);
    assert("scala"@ != "kt"@);
    assert("scala"@ != "php"@);
    assert("scala"@ != "rs"@);
    assert("scala"@ != "swift"@);
    assert("scala"@ != "v"@);
}

proof fn lemma_entry_r()
    ensures
        comment_syntax("r"@) == Some(CommentSyntax { singleline: "#"@, multiline: None }),
{
    reveal_strlit("c");
    reveal_strlit("cpp");
    reveal_strlit("cs");
    reveal_strlit("d");
    reveal_strlit("ex");
    reveal_strlit("go");
    reveal_strlit("java");
    reveal_strlit("js");
    reveal_strlit("kt");
    reveal_strlit("php");
    reveal_strlit("pl");
    reveal_strlit("py");
    reveal_strlit("r");
    reveal_strlit("rb");
    reveal_strlit("rs");
    reveal_strlit("scala");
    reveal_strlit("sh");
    reveal_strlit("swift");
    reveal_strlit("v");
    assert("c"@.len() == 1);
    assert("cpp"@.len() == 3);
    assert("cs"@.len() == 2);
    assert("d"@.len() == 1);
    assert("ex"@.len() == 2);
    assert("go"@.len() == 2);
    assert("java"@.len() == 4);
    assert("js"@.len() == 2);
    assert("kt"@.len() == 2);
    assert("php"@.len() == 3);
    assert("pl"@.len() == 2);
    assert("py"@.len() == 2);
    assert("r"@.len() == 1);
    assert("rb"@.len() == 2);
    assert("rs"@.len() == 2);
    assert("scala"@.len() == 5);
    assert("sh"@.len() == 2);
    assert("swift"@.len() == 5);
    assert("v"@.len() == 1);
    assert("r"@[0] != "c"@[0]);
    assert("r"@[0] != "v"@[0]);
    assert("r"@[0] != "d"@[0]);
    assert("r"@ != "c"@);
    assert("r"@ != "cpp"@);
    assert("r"@ != "cs"@);
    assert("r"@ != "d"@);
    assert("r"@ != "ex"@);
    assert("r"@ != "go"@);
    assert("r"@ != "java"@);
    assert("r"@ != "js"@);
    assert("r"@ != "kt"@);
    assert("r"@ != "php"@);
    assert("r"@ != "pl"@);
    assert("r"@ != "py"@);
    assert("r"@ != "rb"@);
    assert("r"@ != "rs"@);
    assert("r"@ != "scala"@);
    assert("r"@ != "sh"@);
    assert("r"@ != "swift"@);
    assert("r"@ != "v"@);
}

proof fn lemma_entry_cob()
    ensures
        comment_syntax("cob"@) == Some(CommentSyntax { singleline: "*"@, multiline: None }),
{
    reveal_strlit("c");
    reveal_strlit("cob");
    reveal_strlit("cpp");
    reveal_strlit("cs");
    reveal_strlit("d");
    reveal_strlit("erl");
    reveal_strlit("ex");
    reveal_strlit("go");
    reveal_strlit("hs");
    reveal_strlit("html");
    reveal_strlit("java");
    reveal_strlit("js");
    reveal_strlit("kt");
    reveal_strlit("lua");
    reveal_strlit("php");
    reveal_strlit("pl");
    reveal_strlit("py");
    reveal_strlit("r");
    reveal_strlit("rb");
    reveal_strlit("rs");
    reveal_strlit("scala");
    reveal_strlit("sh");
    reveal_strlit("sql");
    reveal_strlit("swift");
    reveal_strlit("v");
    reveal_strlit("xml");
    assert("c"@.len() == 1);
    assert("cob"@.len() == 3);
    assert("cpp"@.len() == 3);
    assert("cs"@.len() == 2);
    assert("d"@.len() == 1);
    assert("erl"@.len() == 3);
    assert("ex"@.len() == 2);
    assert("go"@.len() == 2);
    assert("hs"@.len() == 2);
    assert("html"@.len() == 4);
    assert("java"@.len() == 4);
    assert("js"@.len() == 2);
    assert("kt"@.len() == 2);
    assert("lua"@.len() == 3);
    assert("php"@.len() == 3);
    assert("pl"@.len() == 2);
    assert("py"@.len() == 2);
    assert("r"@.len() == 1);
    assert("rb"@.len() == 2);
    assert("rs"@.len() == 2);
    assert("scala"@.len() == 5);
    assert("sh"@.len() == 2);
    assert("sql"@.len() == 3);
    assert("swift"@.len() == 5);
    assert("v"@.len() == 1);
    assert("xml"@.len() == 3);
    assert("cob"@[1] != "cpp"@[1]);
    assert("cob"@[0] != "php"@[0]);
    assert("cob"@[0] != "lua"@[0]);
    assert("cob"@[0] != "sql"@[0]);
    assert("cob"@[0] != "erl"@[0]);
    assert("cob"@[0] != "xml"@[0]);
    assert("cob"@ != "c"@);
    assert("cob"@ != "cpp"@);
    assert("cob"@ != "cs"@);
    assert("cob"@ != "d"@);
    assert("cob"@ != "erl"@);
    assert("cob"@ != "ex"@);
    assert("cob"@ != "go"@);
    assert("cob"@ != "hs"@);
    assert("cob"@ != "html"@);
    assert("cob"@ != "java"@);
    assert("cob"@ != "js"@);
    assert("cob"@ != "kt"@);
    assert("cob"@ != "lua"@);
    assert("cob"@ != "php"@);
    assert("cob"@ != "pl"@);
    assert("cob"@ != "py"@);
    assert("cob"@ != "r"@);
    assert("cob"@ != "rb"@);
    assert("cob"@ != "rs"@);
    assert("cob"@ != "scala"@);
    assert("cob"@ != "sh"@);
    assert("cob"@ != "sql"@);
    assert("cob"@ != "swift"@);
    assert("cob"@ != "v"@);
    assert("cob"@ != "xml"@);
}

proof fn lemma_entry_f90()
    ensures
        comment_syntax("f90"@) == Some(CommentSyntax { singleline: "!"@, multiline: None }),
{
    reveal_strlit("c");
    reveal_strlit("cob");
    reveal_strlit("cpp");
    reveal_strlit("cs");
    reveal_strlit("d");
    reveal_strlit("erl");
    reveal_strlit("ex");
    reveal_strlit("f90");
    reveal_strlit("go");
    reveal_strlit("hs");
    reveal_strlit("html");
    reveal_strlit("java");
    reveal_strlit("js");
    reveal_strlit("kt");
    reveal_strlit("lua");
    reveal_strlit("php");
    reveal_strlit("pl");
    reveal_strlit("py");
    reveal_strlit("r");
    reveal_strlit("rb");
    reveal_strlit("rs");
    reveal_strlit("scala");
    reveal_strlit("sh");
    reveal_strlit("sql");
    reveal_strlit("swift");
    reveal_strlit("v");
    reveal_strlit("xml");
    assert("c"@.len() == 1);
    assert("cob"@.len() == 3);
    assert("cpp"@.len() == 3);
    assert("cs"@.len() == 2);
    assert("d"@.len() == 1);
    assert("erl"@.len() == 3);
    assert("ex"@.len() == 2);
    assert("f90"@.len() == 3);
    assert("go"@.len() == 2);
    assert("hs"@.len() == 2);
    assert("html"@.len() == 4);
    assert("java"@.len() == 4);
    assert("js"@.len() == 2);
    assert("kt"@.len() == 2);
    assert("lua"@.len() == 3);
    assert("php"@.len() == 3);
    assert("pl"@.len() == 2);
    assert("py"@.len() == 2);
    assert("r"@.len() == 1);
    assert("rb"@.len() == 2);
    assert("rs"@.len() == 2);
    assert("scala"@.len() == 5);
    assert("sh"@.len() == 2);
    assert("sql"@.len() == 3);
    assert("swift"@.len() == 5);
    assert("v"@.len() == 1);
    assert("xml"@.len() == 3);
    assert("f90"@[0] != "cpp"@[0]);
    assert("f90"@[0] != "php"@[0]);
    assert("f90"@[0] != "lua"@[0]);
    assert("f90"@[0] != "sql"@[0]);
    assert("f90"@[0] != "erl"@[0]);
    assert("f90"@[0] != "xml"@[0]);
    assert("f90"@[0] != "cob"@[0]);
    assert("f90"@ != "c"@);
    assert("f90"@ != "cob"@);
    assert("f90"@ != "cpp"@);
    assert("f90"@ != "cs"@);
    assert("f90"@ != "d"@);
    assert("f90"@ != "erl"@);
    assert("f90"@ != "ex"@);
    assert("f90"@ != "go"@);
    assert("f90"@ != "hs"@);
    assert("f90"@ != "html"@);
    assert("f90"@ != "java"@);
    assert("f90"@ != "js"@);
    assert("f90"@ != "kt"@);
    assert("f90"@ != "lua"@);
    assert("f90"@ != "php"@);
    assert("f90"@ != "pl"@);
    assert("f90"@ != "py"@);
    assert("f90"@ != "r"@);
    assert("f90"@ != "rb"@);
    assert("f90"@ != "rs"@);
    assert("f90"@ != "scala"@);
    assert("f90"@ != "sh"@);
    assert("f90"@ != "sql"@);
    assert("f90"@ != "swift"@);
    assert("f90"@ != "v"@);
    assert("f90"@ != "xml"@);
}

/// The languages the server knows, each with its delimiters: the C family
/// and its kin use `//` and `/* */`; Python, Ruby, Perl, shell, Elixir and R
/// use `#`; Lua uses `--` and `--[[ ]]`; Haskell and SQL use `--`; Erlang
/// `%`; HTML and XML `<!--`; COBOL `*`; Fortran `!`. No other extension has
/// a table entry.
pub proof fn lemma_known_languages(ext: Seq<char>)
    ensures
        comment_syntax("rs"@) == Some(CommentSyntax { singleline: "//"@, multiline: Some(("/*"@, "*/"@)) }),
        comment_syntax("c"@) == Some(CommentSyntax { singleline: "//"@, multiline: Some(("/*"@, "*/"@)) }),
        comment_syntax("cpp"@) == Some(CommentSyntax { singleline: "//"@, multiline: Some(("/*"@, "*/"@)) }),
        comment_syntax("java"@) == Some(CommentSyntax { singleline: "//"@, multiline: Some(("/*"@, "*/"@)) }),
        comment_syntax("js"@) == Some(CommentSyntax { singleline: "//"@, multiline: Some(("/*"@, "*/"@)) }),
        comment_syntax("py"@) == Some(CommentSyntax { singleline: "#"@, multiline: None }),
        comment_syntax("rb"@) == Some(CommentSyntax { singleline: "#"@, multiline: None }),
        comment_syntax("php"@) == Some(CommentSyntax { singleline: "//"@, multiline: Some(("/*"@, "*/"@)) }),
        comment_syntax("cs"@) == Some(CommentSyntax { singleline: "//"@, multiline: Some(("/*"@, "*/"@)) }),
        comment_syntax("swift"@) == Some(CommentSyntax { singleline: "//"@, multiline: Some(("/*"@, "*/"@)) }),
        comment_syntax("kt"@) == Some(CommentSyntax { singleline: "//"@, multiline: Some(("/*"@, "*/"@)) }),
        comment_syntax("pl"@) == Some(CommentSyntax { singleline: "#"@, multiline: None }),
        comment_syntax("sh"@) == Some(CommentSyntax { singleline: "#"@, multiline: None }),
        comment_syntax("lua"@) == Some(CommentSyntax { singleline: "--"@, multiline: Some(("--[["@, "]]"@)) }),
        comment_syntax("hs"@) == Some(CommentSyntax { singleline: "--"@, multiline: None }),
        comment_syntax("erl"@) == Some(CommentSyntax { singleline: "%"@, multiline: None }),
        comment_syntax("ex"@) == Some(CommentSyntax { singleline: "#"@, multiline: None }),
        comment_syntax("html"@) == Some(CommentSyntax { singleline: "<!--"@, multiline: None }),
        comment_syntax("xml"@) == Some(CommentSyntax { singleline: "<!--"@, multiline: None }),
        comment_syntax("sql"@) == Some(CommentSyntax { singleline: "--"@, multiline: None }),
        comment_syntax("v"@) == Some(CommentSyntax { singleline: "//"@, multiline: Some(("/*"@, "*/"@)) }),
        comment_syntax("go"@) == Some(CommentSyntax { singleline: "//"@, multiline: Some(("/*"@, "*/"@)) }),
        comment_syntax("d"@) == Some(CommentSyntax { singleline: "//"@, multiline: Some(("/*"@, "*/"@)) }),
        comment_syntax("scala"@) == Some(CommentSyntax { singleline: "//"@, multiline: Some(("/*"@, "*/"@)) }),
        comment_syntax("r"@) == Some(CommentSyntax { singleline: "#"@, multiline: None }),
        comment_syntax("cob"@) == Some(CommentSyntax { singleline: "*"@, multiline: None }),
        comment_syntax("f90"@) == Some(CommentSyntax { singleline: "!"@, multiline: None }),
        comment_syntax(ext) is Some <==> set!["rs"@, "c"@, "cpp"@, "java"@, "js"@, "py"@, "rb"@, "php"@, "cs"@, "swift"@, "kt"@, "pl"@, "sh"@, "lua"@, "hs"@, "erl"@, "ex"@, "html"@, "xml"@, "sql"@, "v"@, "go"@, "d"@, "scala"@, "r"@, "cob"@, "f90"@].contains(ext),
{
    lemma_entry_rs();
    lemma_entry_c();
    lemma_entry_cpp();
    lemma_entry_java();
    lemma_entry_js();
    lemma_entry_py();
    lemma_entry_rb();
    lemma_entry_php();
    lemma_entry_cs();
    lemma_entry_swift();
    lemma_entry_kt();
    lemma_entry_pl();
    lemma_entry_sh();
    lemma_entry_lua();
    lemma_entry_hs();
    lemma_entry_erl();
    lemma_entry_ex();
    lemma_entry_html();
    lemma_entry_xml();
    lemma_entry_sql();
    lemma_entry_v();
    lemma_entry_go();
    lemma_entry_d();
    lemma_entry_scala();
    lemma_entry_r();
    lemma_entry_cob();
    lemma_entry_f90();
}

/// Every delimiter in the table is one the lexer can work with.
pub proof fn lemma_table_delimiters(ext: Seq<char>)
    ensures
        comment_syntax(ext) matches Some(syn) ==> syntax_ok(syn),
{
    reveal_strlit("//");
    reveal_strlit("/*");
    reveal_strlit("*/");
    reveal_strlit("#");
    reveal_strlit("--");
    reveal_strlit("--[[");
    reveal_strlit("]]");
    reveal_strlit("%");
    reveal_strlit("<!--");
    reveal_strlit("*");
    reveal_strlit("!");
    lemma_ascii_delimiter("//"@);
    lemma_ascii_delimiter("/*"@);
    lemma_ascii_delimiter("*/"@);
    lemma_ascii_delimiter("#"@);
    lemma_ascii_delimiter("--"@);
    lemma_ascii_delimiter("--[["@);
    lemma_ascii_delimiter("]]"@);
    lemma_ascii_delimiter("%"@);
    lemma_ascii_delimiter("<!--"@);
    lemma_ascii_delimiter("*"@);
    lemma_ascii_delimiter("!"@);
}

impl CommentStrInfo {
    pub closed spec fn syntax(&self) -> CommentSyntax {
        CommentSyntax {
            singleline: self.singleline@,
            multiline: match self.multiline {
                Some(m) => Some((m.start@, m.end@)),
                None => None,
            },
        }
    }

    pub fn singleline(&self) -> (s: &str)
        ensures
            s@ == self.syntax().singleline,
    {
        self.singleline
    }

    pub fn multiline_start(&self) -> (s: Option<&str>)
        ensures
            match self.syntax().multiline {
                Some((start, _)) => s is Some && s.unwrap()@ == start,
                None => s is None,
            },
    {
        match &self.multiline {
            Some(m) => Some(m.start),
            None => None,
        }
    }

    pub fn multiline_end(&self) -> (s: Option<&str>)
        ensures
            match self.syntax().multiline {
                Some((_, end)) => s is Some && s.unwrap()@ == end,
                None => s is None,
            },
    {
        match &self.multiline {
            Some(m) => Some(m.end),
            None => None,
        }
    }

    /// At which character index the block comment opener first differs from
    /// the line comment marker; `None` without a block comment syntax or when
    /// the two agree on all positions they share.
    pub fn difference_idx(&self) -> (r: Option<usize>)
        ensures
            r == match self.syntax().multiline {
                Some((start, _)) => match first_difference(start, self.syntax().singleline) {
                    Some(i) => Some(i as usize),
                    None => None,
                },
                None => None,
            },
    {
        let multi = match self.multiline_start() {
            Some(m) => chars_of(m),
            None => return None,
        };
        let single = chars_of(self.singleline());
        let mut i: usize = 0;
        while i < multi.len() && i < single.len()
            invariant
                i <= multi.len(),
                self.syntax().multiline is Some,
                multi@ == self.syntax().multiline.unwrap().0,
                single@ == self.syntax().singleline,
                forall|j: int| 0 <= j < i ==> multi@[j] == single@[j],
            decreases multi.len() - i,
        {
            if multi[i] != single[i] {
                let ghost a = multi@;
                let ghost b = single@;
                assert(first_difference(a, b) == Some(i as nat)) by {
                    let k = choose|k: int|
                        0 <= k < a.len() && k < b.len() && a[k] != b[k] && forall|j: int|
                            0 <= j < k ==> a[j] == b[j];
                    assert(0 <= i < a.len() && i < b.len() && a[i as int] != b[i as int]);
                    if k < i {
                    } else if k > i {
                        assert(a[i as int] == b[i as int]);
                    }
                }
                return Some(i);
            }
            i = i + 1;
        }
        None
    }
}

fn c_like_info() -> (info: CommentStrInfo)
    ensures
        info.syntax() == c_like(),
{
    CommentStrInfo {
        singleline: "//",
        multiline: Some(MultilineCommentInfo { start: "/*", end: "*/" }),
    }
}

fn line_only_info(marker: &'static str) -> (info: CommentStrInfo)
    ensures
        info.syntax() == line_only(marker@),
{
    CommentStrInfo { singleline: marker, multiline: None }
}

/// Looks up the comment delimiters for a file extension.
pub fn get_comment_string_info(ext: &str) -> (r: CommandResult<CommentStrInfo>)
    ensures
        match comment_syntax(ext@) {
            Some(syntax) => r is Ok && r.unwrap().syntax() == syntax,
            None => r == Err::<CommentStrInfo, CommandError>(
                CommandError::UnhandledLanguageExtension(r->Err_0->UnhandledLanguageExtension_0),
            ) && r->Err_0->UnhandledLanguageExtension_0@ == ext@,
        },
{
    if str_eq(ext, "rs") || str_eq(ext, "c") || str_eq(ext, "cpp") || str_eq(ext, "java")
        || str_eq(ext, "js") || str_eq(ext, "php") || str_eq(ext, "cs") || str_eq(ext, "swift")
        || str_eq(ext, "kt") || str_eq(ext, "v") || str_eq(ext, "go") || str_eq(ext, "d")
        || str_eq(ext, "scala") {
        Ok(c_like_info())
    } else if str_eq(ext, "py") || str_eq(ext, "rb") || str_eq(ext, "pl") || str_eq(ext, "sh")
        || str_eq(ext, "ex") || str_eq(ext, "r") {
        Ok(line_only_info("#"))
    } else if str_eq(ext, "lua") {
        Ok(
            CommentStrInfo {
                singleline: "--",
                multiline: Some(MultilineCommentInfo { start: "--[[", end: "]]" }),
            },
        )
    } else if str_eq(ext, "hs") || str_eq(ext, "sql") {
        Ok(line_only_info("--"))
    } else if str_eq(ext, "erl") {
        Ok(line_only_info("%"))
    } else if str_eq(ext, "html") || str_eq(ext, "xml") {
        Ok(line_only_info("<!--"))
    } else if str_eq(ext, "cob") {
        Ok(line_only_info("*"))
    } else if str_eq(ext, "f90") {
        Ok(line_only_info("!"))
    } else {
        Err(CommandError::UnhandledLanguageExtension(ext.to_owned()))
    }
}

} // verus!
