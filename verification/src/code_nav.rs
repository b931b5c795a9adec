//! Code navigation: languages and their file extensions, top-level symbol
//! extraction from query matches, and the decisions of the symbol index
//! (which files to re-parse, which entries to prune, where the project
//! root is).
use vstd::prelude::*;
use crate::text::{ascii_lower, is_ascii, lemma_ascii_lower_idempotent, chars_eq, chars_of, lowercase, seq_lt, chars_lt, string_from_chars, to_lowercase, lemma_seq_lt_irreflexive, lemma_seq_lt_asymmetric, lemma_seq_lt_transitive, lemma_seq_lt_total};

verus! {

/// A language the code navigator understands.
#[derive(Debug, Clone, Copy, PartialEq, Eq, Structural)]
pub enum Lang {
    Bash,
    C,
    Cpp,
    Go,
    JavaScript,
    Python,
    Rust,
    Swift,
    TypeScript,
}

/// The language of a file extension.
pub open spec fn lang_of_extension(ext: Seq<char>) -> Option<Lang> {
    if ext == "sh"@ || ext == "bash"@ || ext == "zsh"@ {
        Some(Lang::Bash)
    } else if ext == "c"@ || ext == "h"@ {
        Some(Lang::C)
    } else if ext == "cc"@ || ext == "cpp"@ || ext == "cxx"@ || ext == "hh"@ || ext == "hpp"@ || ext == "hxx"@ {
        Some(Lang::Cpp)
    } else if ext == "go"@ {
        Some(Lang::Go)
    } else if ext == "js"@ || ext == "mjs"@ || ext == "cjs"@ {
        Some(Lang::JavaScript)
    } else if ext == "py"@ || ext == "pyw"@ {
        Some(Lang::Python)
    } else if ext == "rs"@ {
        Some(Lang::Rust)
    } else if ext == "swift"@ {
        Some(Lang::Swift)
    } else if ext == "ts"@ || ext == "tsx"@ || ext == "mts"@ || ext == "cts"@ {
        Some(Lang::TypeScript)
    } else {
        None
    }
}

/// The language a (lower-cased) name denotes.
pub open spec fn lang_of_name(s: Seq<char>) -> Option<Lang> {
    if s == "bash"@ || s == "sh"@ {
        Some(Lang::Bash)
    } else if s == "c"@ {
        Some(Lang::C)
    } else if s == "cpp"@ || s == "c++"@ || s == "cxx"@ {
        Some(Lang::Cpp)
    } else if s == "go"@ || s == "golang"@ {
        Some(Lang::Go)
    } else if s == "js"@ || s == "javascript"@ {
        Some(Lang::JavaScript)
    } else if s == "py"@ || s == "python"@ {
        Some(Lang::Python)
    } else if s == "rs"@ || s == "rust"@ {
        Some(Lang::Rust)
    } else if s == "swift"@ {
        Some(Lang::Swift)
    } else if s == "ts"@ || s == "tsx"@ || s == "typescript"@ {
        Some(Lang::TypeScript)
    } else {
        None
    }
}

/// The canonical name of a language.
pub open spec fn lang_name(l: Lang) -> Seq<char> {
    match l {
        Lang::Bash => "bash"@,
        Lang::C => "c"@,
        Lang::Cpp => "cpp"@,
        Lang::Go => "go"@,
        Lang::JavaScript => "javascript"@,
        Lang::Python => "python"@,
        Lang::Rust => "rust"@,
        Lang::Swift => "swift"@,
        Lang::TypeScript => "typescript"@,
    }
}

/// The file extensions of a language.
pub open spec fn lang_extensions(l: Lang) -> Seq<Seq<char>> {
    match l {
        Lang::Bash => seq!["sh"@, "bash"@, "zsh"@],
        Lang::C => seq!["c"@, "h"@],
        Lang::Cpp => seq!["cc"@, "cpp"@, "cxx"@, "hh"@, "hpp"@, "hxx"@],
        Lang::Go => seq!["go"@],
        Lang::JavaScript => seq!["js"@, "mjs"@, "cjs"@],
        Lang::Python => seq!["py"@, "pyw"@],
        Lang::Rust => seq!["rs"@],
        Lang::Swift => seq!["swift"@],
        Lang::TypeScript => seq!["ts"@, "tsx"@, "mts"@, "cts"@],
    }
}

fn is(s: &[char], lit: &str) -> (r: bool)
    ensures
        r == (s@ == lit@),
{
    let l = chars_of(lit);
    chars_eq(s, &l)
}

impl Lang {
    /// The language of a file extension.
    pub fn from_extension(ext: &str) -> (r: Option<Lang>)
        ensures
            r == lang_of_extension(ext@),
    {
        let e = chars_of(ext);
        if is(&e, "sh") || is(&e, "bash") || is(&e, "zsh") {
            return Some(Lang::Bash);
        }
        if is(&e, "c") || is(&e, "h") {
            return Some(Lang::C);
        }
        if is(&e, "cc") || is(&e, "cpp") || is(&e, "cxx") || is(&e, "hh") || is(&e, "hpp") || is(&e, "hxx") {
            return Some(Lang::Cpp);
        }
        if is(&e, "go") {
            return Some(Lang::Go);
        }
        if is(&e, "js") || is(&e, "mjs") || is(&e, "cjs") {
            return Some(Lang::JavaScript);
        }
        if is(&e, "py") || is(&e, "pyw") {
            return Some(Lang::Python);
        }
        if is(&e, "rs") {
            return Some(Lang::Rust);
        }
        if is(&e, "swift") {
            return Some(Lang::Swift);
        }
        if is(&e, "ts") || is(&e, "tsx") || is(&e, "mts") || is(&e, "cts") {
            return Some(Lang::TypeScript);
        }
        None
    }

    /// The language a name denotes, in any letter case.
    pub fn from_str(s: &str) -> (r: Option<Lang>)
        ensures
            r == lang_of_name(lowercase(s@)),
            is_ascii(s@) ==> r == lang_of_name(ascii_lower(s@)),
    {
        let lower = to_lowercase(s);
        let e = chars_of(lower.as_str());
        if is(&e, "bash") || is(&e, "sh") {
            return Some(Lang::Bash);
        }
        if is(&e, "c") {
            return Some(Lang::C);
        }
        if is(&e, "cpp") || is(&e, "c++") || is(&e, "cxx") {
            return Some(Lang::Cpp);
        }
        if is(&e, "go") || is(&e, "golang") {
            return Some(Lang::Go);
        }
        if is(&e, "js") || is(&e, "javascript") {
            return Some(Lang::JavaScript);
        }
        if is(&e, "py") || is(&e, "python") {
            return Some(Lang::Python);
        }
        if is(&e, "rs") || is(&e, "rust") {
            return Some(Lang::Rust);
        }
        if is(&e, "swift") {
            return Some(Lang::Swift);
        }
        if is(&e, "ts") || is(&e, "tsx") || is(&e, "typescript") {
            return Some(Lang::TypeScript);
        }
        None
    }

    /// The canonical name.
    pub fn as_str(self) -> (r: &'static str)
        ensures
            r@ == lang_name(self),
    {
        match self {
            Lang::Bash => "bash",
            Lang::C => "c",
            Lang::Cpp => "cpp",
            Lang::Go => "go",
            Lang::JavaScript => "javascript",
            Lang::Python => "python",
            Lang::Rust => "rust",
            Lang::Swift => "swift",
            Lang::TypeScript => "typescript",
        }
    }

    /// The file extensions, for directory walks.
    pub fn extensions(self) -> (r: Vec<&'static str>)
        ensures
            r@.map_values(|s: &str| s@) == lang_extensions(self),
    {
        let r = match self {
            Lang::Bash => vec!["sh", "bash", "zsh"],
            Lang::C => vec!["c", "h"],
            Lang::Cpp => vec!["cc", "cpp", "cxx", "hh", "hpp", "hxx"],
            Lang::Go => vec!["go"],
            Lang::JavaScript => vec!["js", "mjs", "cjs"],
            Lang::Python => vec!["py", "pyw"],
            Lang::Rust => vec!["rs"],
            Lang::Swift => vec!["swift"],
            Lang::TypeScript => vec!["ts", "tsx", "mts", "cts"],
        };
        assert(r@.map_values(|s: &str| s@) =~= lang_extensions(self));
        r
    }
}

/// Every language, in declaration order.
pub open spec fn all_langs() -> Seq<Lang> {
    seq![Lang::Bash, Lang::C, Lang::Cpp, Lang::Go, Lang::JavaScript, Lang::Python, Lang::Rust, Lang::Swift, Lang::TypeScript]
}

/// Every extension a language lists reads back as that language, and an
/// extension reads as a language only when that language lists it; any
/// other text (case counts: `RS`, the empty text) reads as none.
pub proof fn law_extension_round_trip(l: Lang, e: Seq<char>)
    ensures
        lang_extensions(l).contains(e) ==> lang_of_extension(e) == Some(l),
        lang_of_extension(e) == Some(l) ==> lang_extensions(l).contains(e),
{
    reveal_strlit("sh");
    reveal_strlit("bash");
    reveal_strlit("zsh");
    reveal_strlit("c");
    reveal_strlit("h");
    reveal_strlit("cc");
    reveal_strlit("cpp");
    reveal_strlit("cxx");
    reveal_strlit("hh");
    reveal_strlit("hpp");
    reveal_strlit("hxx");
    reveal_strlit("go");
    reveal_strlit("js");
    reveal_strlit("mjs");
    reveal_strlit("cjs");
    reveal_strlit("py");
    reveal_strlit("pyw");
    reveal_strlit("rs");
    reveal_strlit("swift");
    reveal_strlit("ts");
    reveal_strlit("tsx");
    reveal_strlit("mts");
    reveal_strlit("cts");
    assert("sh"@.len() == 2);
    assert("sh"@[0] == 's');
    assert("sh"@[1] == 'h');
    assert("bash"@.len() == 4);
    assert("bash"@[0] == 'b');
    assert("bash"@[1] == 'a');
    assert("bash"@[2] == 's');
    assert("bash"@[3] == 'h');
    assert("zsh"@.len() == 3);
    assert("zsh"@[0] == 'z');
    assert("zsh"@[1] == 's');
    assert("zsh"@[2] == 'h');
    assert("c"@.len() == 1);
    assert("c"@[0] == 'c');
    assert("h"@.len() == 1);
    assert("h"@[0] == 'h');
    assert("cc"@.len() == 2);
    assert("cc"@[0] == 'c');
    assert("cc"@[1] == 'c');
    assert("cpp"@.len() == 3);
    assert("cpp"@[0] == 'c');
    assert("cpp"@[1] == 'p');
    assert("cpp"@[2] == 'p');
    assert("cxx"@.len() == 3);
    assert("cxx"@[0] == 'c');
    assert("cxx"@[1] == 'x');
    assert("cxx"@[2] == 'x');
    assert("hh"@.len() == 2);
    assert("hh"@[0] == 'h');
    assert("hh"@[1] == 'h');
    assert("hpp"@.len() == 3);
    assert("hpp"@[0] == 'h');
    assert("hpp"@[1] == 'p');
    assert("hpp"@[2] == 'p');
    assert("hxx"@.len() == 3);
    assert("hxx"@[0] == 'h');
    assert("hxx"@[1] == 'x');
    assert("hxx"@[2] == 'x');
    assert("go"@.len() == 2);
    assert("go"@[0] == 'g');
    assert("go"@[1] == 'o');
    assert("js"@.len() == 2);
    assert("js"@[0] == 'j');
    assert("js"@[1] == 's');
    assert("mjs"@.len() == 3);
    assert("mjs"@[0] == 'm');
    assert("mjs"@[1] == 'j');
    assert("mjs"@[2] == 's');
    assert("cjs"@.len() == 3);
    assert("cjs"@[0] == 'c');
    assert("cjs"@[1] == 'j');
    assert("cjs"@[2] == 's');
    assert("py"@.len() == 2);
    assert("py"@[0] == 'p');
    assert("py"@[1] == 'y');
    assert("pyw"@.len() == 3);
    assert("pyw"@[0] == 'p');
    assert("pyw"@[1] == 'y');
    assert("pyw"@[2] == 'w');
    assert("rs"@.len() == 2);
    assert("rs"@[0] == 'r');
    assert("rs"@[1] == 's');
    assert("swift"@.len() == 5);
    assert("swift"@[0] == 's');
    assert("swift"@[1] == 'w');
    assert("swift"@[2] == 'i');
    assert("swift"@[3] == 'f');
    assert("swift"@[4] == 't');
    assert("ts"@.len() == 2);
    assert("ts"@[0] == 't');
    assert("ts"@[1] == 's');
    assert("tsx"@.len() == 3);
    assert("tsx"@[0] == 't');
    assert("tsx"@[1] == 's');
    assert("tsx"@[2] == 'x');
    assert("mts"@.len() == 3);
    assert("mts"@[0] == 'm');
    assert("mts"@[1] == 't');
    assert("mts"@[2] == 's');
    assert("cts"@.len() == 3);
    assert("cts"@[0] == 'c');
    assert("cts"@[1] == 't');
    assert("cts"@[2] == 's');
    if lang_extensions(l).contains(e) {
        let k = choose|k: int| 0 <= k < lang_extensions(l).len() && lang_extensions(l)[k] == e;
        match l {
        Lang::Bash => {
            if k == 0 {
                assert(lang_extensions(l)[k] == "sh"@);
                assert(lang_of_extension("sh"@) == Some(Lang::Bash));
            } else if k == 1 {
                assert(lang_extensions(l)[k] == "bash"@);
                assert(lang_of_extension("bash"@) == Some(Lang::Bash));
            } else if k == 2 {
                assert(lang_extensions(l)[k] == "zsh"@);
                assert(lang_of_extension("zsh"@) == Some(Lang::Bash));
            }
        },
        Lang::C => {
            if k == 0 {
                assert(lang_extensions(l)[k] == "c"@);
                assert(lang_of_extension("c"@) == Some(Lang::C));
            } else if k == 1 {
                assert(lang_extensions(l)[k] == "h"@);
                assert(lang_of_extension("h"@) == Some(Lang::C));
            }
        },
        Lang::Cpp => {
            if k == 0 {
                assert(lang_extensions(l)[k] == "cc"@);
                assert(lang_of_extension("cc"@) == Some(Lang::Cpp));
            } else if k == 1 {
                assert(lang_extensions(l)[k] == "cpp"@);
                assert(lang_of_extension("cpp"@) == Some(Lang::Cpp));
            } else if k == 2 {
                assert(lang_extensions(l)[k] == "cxx"@);
                assert(lang_of_extension("cxx"@) == Some(Lang::Cpp));
            } else if k == 3 {
                assert(lang_extensions(l)[k] == "hh"@);
                assert(lang_of_extension("hh"@) == Some(Lang::Cpp));
            } else if k == 4 {
                assert(lang_extensions(l)[k] == "hpp"@);
                assert(lang_of_extension("hpp"@) == Some(Lang::Cpp));
            } else if k == 5 {
                assert(lang_extensions(l)[k] == "hxx"@);
                assert(lang_of_extension("hxx"@) == Some(Lang::Cpp));
            }
        },
        Lang::Go => {
            if k == 0 {
                assert(lang_extensions(l)[k] == "go"@);
                assert(lang_of_extension("go"@) == Some(Lang::Go));
            }
        },
        Lang::JavaScript => {
            if k == 0 {
                assert(lang_extensions(l)[k] == "js"@);
                assert(lang_of_extension("js"@) == Some(Lang::JavaScript));
            } else if k == 1 {
                assert(lang_extensions(l)[k] == "mjs"@);
                assert(lang_of_extension("mjs"@) == Some(Lang::JavaScript));
            } else if k == 2 {
                assert(lang_extensions(l)[k] == "cjs"@);
                assert(lang_of_extension("cjs"@) == Some(Lang::JavaScript));
            }
        },
        Lang::Python => {
            if k == 0 {
                assert(lang_extensions(l)[k] == "py"@);
                assert(lang_of_extension("py"@) == Some(Lang::Python));
            } else if k == 1 {
                assert(lang_extensions(l)[k] == "pyw"@);
                assert(lang_of_extension("pyw"@) == Some(Lang::Python));
            }
        },
        Lang::Rust => {
            if k == 0 {
                assert(lang_extensions(l)[k] == "rs"@);
                assert(lang_of_extension("rs"@) == Some(Lang::Rust));
            }
        },
        Lang::Swift => {
            if k == 0 {
                assert(lang_extensions(l)[k] == "swift"@);
                assert(lang_of_extension("swift"@) == Some(Lang::Swift));
            }
        },
        Lang::TypeScript => {
            if k == 0 {
                assert(lang_extensions(l)[k] == "ts"@);
                assert(lang_of_extension("ts"@) == Some(Lang::TypeScript));
            } else if k == 1 {
                assert(lang_extensions(l)[k] == "tsx"@);
                assert(lang_of_extension("tsx"@) == Some(Lang::TypeScript));
            } else if k == 2 {
                assert(lang_extensions(l)[k] == "mts"@);
                assert(lang_of_extension("mts"@) == Some(Lang::TypeScript));
            } else if k == 3 {
                assert(lang_extensions(l)[k] == "cts"@);
                assert(lang_of_extension("cts"@) == Some(Lang::TypeScript));
            }
        },
        }
    }
    if lang_of_extension(e) == Some(l) {
        let xs = lang_extensions(l);
        assert(exists|k: int| 0 <= k < xs.len() && xs[k] == e) by {
            match l {
                Lang::Bash => {
                    if e == "sh"@ {
                        assert(xs[0] == e);
                    } else if e == "bash"@ {
                        assert(xs[1] == e);
                    } else if e == "zsh"@ {
                        assert(xs[2] == e);
                    }
                },
                Lang::C => {
                    if e == "c"@ {
                        assert(xs[0] == e);
                    } else if e == "h"@ {
                        assert(xs[1] == e);
                    }
                },
                Lang::Cpp => {
                    if e == "cc"@ {
                        assert(xs[0] == e);
                    } else if e == "cpp"@ {
                        assert(xs[1] == e);
                    } else if e == "cxx"@ {
                        assert(xs[2] == e);
                    } else if e == "hh"@ {
                        assert(xs[3] == e);
                    } else if e == "hpp"@ {
                        assert(xs[4] == e);
                    } else if e == "hxx"@ {
                        assert(xs[5] == e);
                    }
                },
                Lang::Go => {
                    if e == "go"@ {
                        assert(xs[0] == e);
                    }
                },
                Lang::JavaScript => {
                    if e == "js"@ {
                        assert(xs[0] == e);
                    } else if e == "mjs"@ {
                        assert(xs[1] == e);
                    } else if e == "cjs"@ {
                        assert(xs[2] == e);
                    }
                },
                Lang::Python => {
                    if e == "py"@ {
                        assert(xs[0] == e);
                    } else if e == "pyw"@ {
                        assert(xs[1] == e);
                    }
                },
                Lang::Rust => {
                    if e == "rs"@ {
                        assert(xs[0] == e);
                    }
                },
                Lang::Swift => {
                    if e == "swift"@ {
                        assert(xs[0] == e);
                    }
                },
                Lang::TypeScript => {
                    if e == "ts"@ {
                        assert(xs[0] == e);
                    } else if e == "tsx"@ {
                        assert(xs[1] == e);
                    } else if e == "mts"@ {
                        assert(xs[2] == e);
                    } else if e == "cts"@ {
                        assert(xs[3] == e);
                    }
                },
            }
        }
    }
}

/// For ASCII text, reading a language name ignores case: lower-casing the
/// text first gives the same language (`Lang::from_str` reads ASCII text as
/// `lang_of_name(ascii_lower(..))`, and lower-casing keeps it ASCII).
pub proof fn law_lang_name_ignores_ascii_case(s: Seq<char>)
    ensures
        is_ascii(s) ==> is_ascii(ascii_lower(s)),
        lang_of_name(ascii_lower(ascii_lower(s))) == lang_of_name(ascii_lower(s)),
{
    lemma_ascii_lower_idempotent(s);
}


/// The canonical name of every language reads back as that language.
pub proof fn law_lang_name_round_trip(l: Lang)
    ensures
        lang_of_name(lang_name(l)) == Some(l),
{
    reveal_strlit("bash");
    reveal_strlit("c");
    reveal_strlit("cpp");
    reveal_strlit("go");
    reveal_strlit("javascript");
    reveal_strlit("python");
    reveal_strlit("rust");
    reveal_strlit("swift");
    reveal_strlit("typescript");
    reveal_strlit("sh");
    reveal_strlit("c++");
    reveal_strlit("cxx");
    reveal_strlit("golang");
    reveal_strlit("js");
    reveal_strlit("py");
    reveal_strlit("rs");
    reveal_strlit("ts");
    reveal_strlit("tsx");
    match l {
        Lang::Bash => {
        },
        Lang::C => {
            assert("c"@.len() != "bash"@.len());
            assert("c"@ != "bash"@);
            assert("c"@.len() != "sh"@.len());
            assert("c"@ != "sh"@);
        },
        Lang::Cpp => {
            assert("cpp"@.len() != "bash"@.len());
            assert("cpp"@ != "bash"@);
            assert("cpp"@.len() != "sh"@.len());
            assert("cpp"@ != "sh"@);
            assert("cpp"@.len() != "c"@.len());
            assert("cpp"@ != "c"@);
        },
        Lang::Go => {
            assert("go"@.len() != "bash"@.len());
            assert("go"@ != "bash"@);
            assert("go"@[0] != "sh"@[0]);
            assert("go"@ != "sh"@);
            assert("go"@.len() != "c"@.len());
            assert("go"@ != "c"@);
            assert("go"@.len() != "cpp"@.len());
            assert("go"@ != "cpp"@);
            assert("go"@.len() != "c++"@.len());
            assert("go"@ != "c++"@);
            assert("go"@.len() != "cxx"@.len());
            assert("go"@ != "cxx"@);
        },
        Lang::JavaScript => {
            assert("javascript"@.len() != "bash"@.len());
            assert("javascript"@ != "bash"@);
            assert("javascript"@.len() != "sh"@.len());
            assert("javascript"@ != "sh"@);
            assert("javascript"@.len() != "c"@.len());
            assert("javascript"@ != "c"@);
            assert("javascript"@.len() != "cpp"@.len());
            assert("javascript"@ != "cpp"@);
            assert("javascript"@.len() != "c++"@.len());
            assert("javascript"@ != "c++"@);
            assert("javascript"@.len() != "cxx"@.len());
            assert("javascript"@ != "cxx"@);
            assert("javascript"@.len() != "go"@.len());
            assert("javascript"@ != "go"@);
            assert("javascript"@.len() != "golang"@.len());
            assert("javascript"@ != "golang"@);
        },
        Lang::Python => {
            assert("python"@.len() != "bash"@.len());
            assert("python"@ != "bash"@);
            assert("python"@.len() != "sh"@.len());
            assert("python"@ != "sh"@);
            assert("python"@.len() != "c"@.len());
            assert("python"@ != "c"@);
            assert("python"@.len() != "cpp"@.len());
            assert("python"@ != "cpp"@);
            assert("python"@.len() != "c++"@.len());
            assert("python"@ != "c++"@);
            assert("python"@.len() != "cxx"@.len());
            assert("python"@ != "cxx"@);
            assert("python"@.len() != "go"@.len());
            assert("python"@ != "go"@);
            assert("python"@[0] != "golang"@[0]);
            assert("python"@ != "golang"@);
            assert("python"@.len() != "js"@.len());
            assert("python"@ != "js"@);
            assert("python"@.len() != "javascript"@.len());
            assert("python"@ != "javascript"@);
        },
        Lang::Rust => {
            assert("rust"@[0] != "bash"@[0]);
            assert("rust"@ != "bash"@);
            assert("rust"@.len() != "sh"@.len());
            assert("rust"@ != "sh"@);
            assert("rust"@.len() != "c"@.len());
            assert("rust"@ != "c"@);
            assert("rust"@.len() != "cpp"@.len());
            assert("rust"@ != "cpp"@);
            assert("rust"@.len() != "c++"@.len());
            assert("rust"@ != "c++"@);
            assert("rust"@.len() != "cxx"@.len());
            assert("rust"@ != "cxx"@);
            assert("rust"@.len() != "go"@.len());
            assert("rust"@ != "go"@);
            assert("rust"@.len() != "golang"@.len());
            assert("rust"@ != "golang"@);
            assert("rust"@.len() != "js"@.len());
            assert("rust"@ != "js"@);
            assert("rust"@.len() != "javascript"@.len());
            assert("rust"@ != "javascript"@);
            assert("rust"@.len() != "py"@.len());
            assert("rust"@ != "py"@);
            assert("rust"@.len() != "python"@.len());
            assert("rust"@ != "python"@);
        },
        Lang::Swift => {
            assert("swift"@.len() != "bash"@.len());
            assert("swift"@ != "bash"@);
            assert("swift"@.len() != "sh"@.len());
            assert("swift"@ != "sh"@);
            assert("swift"@.len() != "c"@.len());
            assert("swift"@ != "c"@);
            assert("swift"@.len() != "cpp"@.len());
            assert("swift"@ != "cpp"@);
            assert("swift"@.len() != "c++"@.len());
            assert("swift"@ != "c++"@);
            assert("swift"@.len() != "cxx"@.len());
            assert("swift"@ != "cxx"@);
            assert("swift"@.len() != "go"@.len());
            assert("swift"@ != "go"@);
            assert("swift"@.len() != "golang"@.len());
            assert("swift"@ != "golang"@);
            assert("swift"@.len() != "js"@.len());
            assert("swift"@ != "js"@);
            assert("swift"@.len() != "javascript"@.len());
            assert("swift"@ != "javascript"@);
            assert("swift"@.len() != "py"@.len());
            assert("swift"@ != "py"@);
            assert("swift"@.len() != "python"@.len());
            assert("swift"@ != "python"@);
            assert("swift"@.len() != "rs"@.len());
            assert("swift"@ != "rs"@);
            assert("swift"@.len() != "rust"@.len());
            assert("swift"@ != "rust"@);
        },
        Lang::TypeScript => {
            assert("typescript"@.len() != "bash"@.len());
            assert("typescript"@ != "bash"@);
            assert("typescript"@.len() != "sh"@.len());
            assert("typescript"@ != "sh"@);
            assert("typescript"@.len() != "c"@.len());
            assert("typescript"@ != "c"@);
            assert("typescript"@.len() != "cpp"@.len());
            assert("typescript"@ != "cpp"@);
            assert("typescript"@.len() != "c++"@.len());
            assert("typescript"@ != "c++"@);
            assert("typescript"@.len() != "cxx"@.len());
            assert("typescript"@ != "cxx"@);
            assert("typescript"@.len() != "go"@.len());
            assert("typescript"@ != "go"@);
            assert("typescript"@.len() != "golang"@.len());
            assert("typescript"@ != "golang"@);
            assert("typescript"@.len() != "js"@.len());
            assert("typescript"@ != "js"@);
            assert("typescript"@[0] != "javascript"@[0]);
            assert("typescript"@ != "javascript"@);
            assert("typescript"@.len() != "py"@.len());
            assert("typescript"@ != "py"@);
            assert("typescript"@.len() != "python"@.len());
            assert("typescript"@ != "python"@);
            assert("typescript"@.len() != "rs"@.len());
            assert("typescript"@ != "rs"@);
            assert("typescript"@.len() != "rust"@.len());
            assert("typescript"@ != "rust"@);
            assert("typescript"@.len() != "swift"@.len());
            assert("typescript"@ != "swift"@);
        },
    }
}

/// Every extension of a language is recognised as that language.
pub proof fn law_extensions_round_trip(l: Lang, i: int)
    requires
        0 <= i < lang_extensions(l).len(),
    ensures
        lang_of_extension(lang_extensions(l)[i]) == Some(l),
{
    reveal_strlit("bash");
    reveal_strlit("c");
    reveal_strlit("cc");
    reveal_strlit("cjs");
    reveal_strlit("cpp");
    reveal_strlit("cts");
    reveal_strlit("cxx");
    reveal_strlit("go");
    reveal_strlit("h");
    reveal_strlit("hh");
    reveal_strlit("hpp");
    reveal_strlit("hxx");
    reveal_strlit("js");
    reveal_strlit("mjs");
    reveal_strlit("mts");
    reveal_strlit("py");
    reveal_strlit("pyw");
    reveal_strlit("rs");
    reveal_strlit("sh");
    reveal_strlit("swift");
    reveal_strlit("ts");
    reveal_strlit("tsx");
    reveal_strlit("zsh");
    match l {
        Lang::Bash => {
            if i == 0 {
            }
            if i == 1 {
            }
            if i == 2 {
            }
        },
        Lang::C => {
            if i == 0 {
                assert("c"@.len() != "sh"@.len());
                assert("c"@ != "sh"@);
                assert("c"@.len() != "bash"@.len());
                assert("c"@ != "bash"@);
                assert("c"@.len() != "zsh"@.len());
                assert("c"@ != "zsh"@);
            }
            if i == 1 {
                assert("h"@.len() != "sh"@.len());
                assert("h"@ != "sh"@);
                assert("h"@.len() != "bash"@.len());
                assert("h"@ != "bash"@);
                assert("h"@.len() != "zsh"@.len());
                assert("h"@ != "zsh"@);
            }
        },
        Lang::Cpp => {
            if i == 0 {
                assert("cc"@[0] != "sh"@[0]);
                assert("cc"@ != "sh"@);
                assert("cc"@.len() != "bash"@.len());
                assert("cc"@ != "bash"@);
                assert("cc"@.len() != "zsh"@.len());
                assert("cc"@ != "zsh"@);
                assert("cc"@.len() != "c"@.len());
                assert("cc"@ != "c"@);
                assert("cc"@.len() != "h"@.len());
                assert("cc"@ != "h"@);
            }
            if i == 1 {
                assert("cpp"@.len() != "sh"@.len());
                assert("cpp"@ != "sh"@);
                assert("cpp"@.len() != "bash"@.len());
                assert("cpp"@ != "bash"@);
                assert("cpp"@[0] != "zsh"@[0]);
                assert("cpp"@ != "zsh"@);
                assert("cpp"@.len() != "c"@.len());
                assert("cpp"@ != "c"@);
                assert("cpp"@.len() != "h"@.len());
                assert("cpp"@ != "h"@);
            }
            if i == 2 {
                assert("cxx"@.len() != "sh"@.len());
                assert("cxx"@ != "sh"@);
                assert("cxx"@.len() != "bash"@.len());
                assert("cxx"@ != "bash"@);
                assert("cxx"@[0] != "zsh"@[0]);
                assert("cxx"@ != "zsh"@);
                assert("cxx"@.len() != "c"@.len());
                assert("cxx"@ != "c"@);
                assert("cxx"@.len() != "h"@.len());
                assert("cxx"@ != "h"@);
            }
            if i == 3 {
                assert("hh"@[0] != "sh"@[0]);
                assert("hh"@ != "sh"@);
                assert("hh"@.len() != "bash"@.len());
                assert("hh"@ != "bash"@);
                assert("hh"@.len() != "zsh"@.len());
                assert("hh"@ != "zsh"@);
                assert("hh"@.len() != "c"@.len());
                assert("hh"@ != "c"@);
                assert("hh"@.len() != "h"@.len());
                assert("hh"@ != "h"@);
            }
            if i == 4 {
                assert("hpp"@.len() != "sh"@.len());
                assert("hpp"@ != "sh"@);
                assert("hpp"@.len() != "bash"@.len());
                assert("hpp"@ != "bash"@);
                assert("hpp"@[0] != "zsh"@[0]);
                assert("hpp"@ != "zsh"@);
                assert("hpp"@.len() != "c"@.len());
                assert("hpp"@ != "c"@);
                assert("hpp"@.len() != "h"@.len());
                assert("hpp"@ != "h"@);
            }
            if i == 5 {
                assert("hxx"@.len() != "sh"@.len());
                assert("hxx"@ != "sh"@);
                assert("hxx"@.len() != "bash"@.len());
                assert("hxx"@ != "bash"@);
                assert("hxx"@[0] != "zsh"@[0]);
                assert("hxx"@ != "zsh"@);
                assert("hxx"@.len() != "c"@.len());
                assert("hxx"@ != "c"@);
                assert("hxx"@.len() != "h"@.len());
                assert("hxx"@ != "h"@);
            }
        },
        Lang::Go => {
            if i == 0 {
                assert("go"@[0] != "sh"@[0]);
                assert("go"@ != "sh"@);
                assert("go"@.len() != "bash"@.len());
                assert("go"@ != "bash"@);
                assert("go"@.len() != "zsh"@.len());
                assert("go"@ != "zsh"@);
                assert("go"@.len() != "c"@.len());
                assert("go"@ != "c"@);
                assert("go"@.len() != "h"@.len());
                assert("go"@ != "h"@);
                assert("go"@[0] != "cc"@[0]);
                assert("go"@ != "cc"@);
                assert("go"@.len() != "cpp"@.len());
                assert("go"@ != "cpp"@);
                assert("go"@.len() != "cxx"@.len());
                assert("go"@ != "cxx"@);
                assert("go"@[0] != "hh"@[0]);
                assert("go"@ != "hh"@);
                assert("go"@.len() != "hpp"@.len());
                assert("go"@ != "hpp"@);
                assert("go"@.len() != "hxx"@.len());
                assert("go"@ != "hxx"@);
            }
        },
        Lang::JavaScript => {
            if i == 0 {
                assert("js"@[0] != "sh"@[0]);
                assert("js"@ != "sh"@);
                assert("js"@.len() != "bash"@.len());
                assert("js"@ != "bash"@);
                assert("js"@.len() != "zsh"@.len());
                assert("js"@ != "zsh"@);
                assert("js"@.len() != "c"@.len());
                assert("js"@ != "c"@);
                assert("js"@.len() != "h"@.len());
                assert("js"@ != "h"@);
                assert("js"@[0] != "cc"@[0]);
                assert("js"@ != "cc"@);
                assert("js"@.len() != "cpp"@.len());
                assert("js"@ != "cpp"@);
                assert("js"@.len() != "cxx"@.len());
                assert("js"@ != "cxx"@);
                assert("js"@[0] != "hh"@[0]);
                assert("js"@ != "hh"@);
                assert("js"@.len() != "hpp"@.len());
                assert("js"@ != "hpp"@);
                assert("js"@.len() != "hxx"@.len());
                assert("js"@ != "hxx"@);
                assert("js"@[0] != "go"@[0]);
                assert("js"@ != "go"@);
            }
            if i == 1 {
                assert("mjs"@.len() != "sh"@.len());
                assert("mjs"@ != "sh"@);
                assert("mjs"@.len() != "bash"@.len());
                assert("mjs"@ != "bash"@);
                assert("mjs"@[0] != "zsh"@[0]);
                assert("mjs"@ != "zsh"@);
                assert("mjs"@.len() != "c"@.len());
                assert("mjs"@ != "c"@);
                assert("mjs"@.len() != "h"@.len());
                assert("mjs"@ != "h"@);
                assert("mjs"@.len() != "cc"@.len());
                assert("mjs"@ != "cc"@);
                assert("mjs"@[0] != "cpp"@[0]);
                assert("mjs"@ != "cpp"@);
                assert("mjs"@[0] != "cxx"@[0]);
                assert("mjs"@ != "cxx"@);
                assert("mjs"@.len() != "hh"@.len());
                assert("mjs"@ != "hh"@);
                assert("mjs"@[0] != "hpp"@[0]);
                assert("mjs"@ != "hpp"@);
                assert("mjs"@[0] != "hxx"@[0]);
                assert("mjs"@ != "hxx"@);
                assert("mjs"@.len() != "go"@.len());
                assert("mjs"@ != "go"@);
            }
            if i == 2 {
                assert("cjs"@.len() != "sh"@.len());
                assert("cjs"@ != "sh"@);
                assert("cjs"@.len() != "bash"@.len());
                assert("cjs"@ != "bash"@);
                assert("cjs"@[0] != "zsh"@[0]);
                assert("cjs"@ != "zsh"@);
                assert("cjs"@.len() != "c"@.len());
                assert("cjs"@ != "c"@);
                assert("cjs"@.len() != "h"@.len());
                assert("cjs"@ != "h"@);
                assert("cjs"@.len() != "cc"@.len());
                assert("cjs"@ != "cc"@);
                assert("cjs"@[1] != "cpp"@[1]);
                assert("cjs"@ != "cpp"@);
                assert("cjs"@[1] != "cxx"@[1]);
                assert("cjs"@ != "cxx"@);
                assert("cjs"@.len() != "hh"@.len());
                assert("cjs"@ != "hh"@);
                assert("cjs"@[0] != "hpp"@[0]);
                assert("cjs"@ != "hpp"@);
                assert("cjs"@[0] != "hxx"@[0]);
                assert("cjs"@ != "hxx"@);
                assert("cjs"@.len() != "go"@.len());
                assert("cjs"@ != "go"@);
            }
        },
        Lang::Python => {
            if i == 0 {
                assert("py"@[0] != "sh"@[0]);
                assert("py"@ != "sh"@);
                assert("py"@.len() != "bash"@.len());
                assert("py"@ != "bash"@);
                assert("py"@.len() != "zsh"@.len());
                assert("py"@ != "zsh"@);
                assert("py"@.len() != "c"@.len());
                assert("py"@ != "c"@);
                assert("py"@.len() != "h"@.len());
                assert("py"@ != "h"@);
                assert("py"@[0] != "cc"@[0]);
                assert("py"@ != "cc"@);
                assert("py"@.len() != "cpp"@.len());
                assert("py"@ != "cpp"@);
                assert("py"@.len() != "cxx"@.len());
                assert("py"@ != "cxx"@);
                assert("py"@[0] != "hh"@[0]);
                assert("py"@ != "hh"@);
                assert("py"@.len() != "hpp"@.len());
                assert("py"@ != "hpp"@);
                assert("py"@.len() != "hxx"@.len());
                assert("py"@ != "hxx"@);
                assert("py"@[0] != "go"@[0]);
                assert("py"@ != "go"@);
                assert("py"@[0] != "js"@[0]);
                assert("py"@ != "js"@);
                assert("py"@.len() != "mjs"@.len());
                assert("py"@ != "mjs"@);
                assert("py"@.len() != "cjs"@.len());
                assert("py"@ != "cjs"@);
            }
            if i == 1 {
                assert("pyw"@.len() != "sh"@.len());
                assert("pyw"@ != "sh"@);
                assert("pyw"@.len() != "bash"@.len());
                assert("pyw"@ != "bash"@);
                assert("pyw"@[0] != "zsh"@[0]);
                assert("pyw"@ != "zsh"@);
                assert("pyw"@.len() != "c"@.len());
                assert("pyw"@ != "c"@);
                assert("pyw"@.len() != "h"@.len());
                assert("pyw"@ != "h"@);
                assert("pyw"@.len() != "cc"@.len());
                assert("pyw"@ != "cc"@);
                assert("pyw"@[0] != "cpp"@[0]);
                assert("pyw"@ != "cpp"@);
                assert("pyw"@[0] != "cxx"@[0]);
                assert("pyw"@ != "cxx"@);
                assert("pyw"@.len() != "hh"@.len());
                assert("pyw"@ != "hh"@);
                assert("pyw"@[0] != "hpp"@[0]);
                assert("pyw"@ != "hpp"@);
                assert("pyw"@[0] != "hxx"@[0]);
                assert("pyw"@ != "hxx"@);
                assert("pyw"@.len() != "go"@.len());
                assert("pyw"@ != "go"@);
                assert("pyw"@.len() != "js"@.len());
                assert("pyw"@ != "js"@);
                assert("pyw"@[0] != "mjs"@[0]);
                assert("pyw"@ != "mjs"@);
                assert("pyw"@[0] != "cjs"@[0]);
                assert("pyw"@ != "cjs"@);
            }
        },
        Lang::Rust => {
            if i == 0 {
                assert("rs"@[0] != "sh"@[0]);
                assert("rs"@ != "sh"@);
                assert("rs"@.len() != "bash"@.len());
                assert("rs"@ != "bash"@);
                assert("rs"@.len() != "zsh"@.len());
                assert("rs"@ != "zsh"@);
                assert("rs"@.len() != "c"@.len());
                assert("rs"@ != "c"@);
                assert("rs"@.len() != "h"@.len());
                assert("rs"@ != "h"@);
                assert("rs"@[0] != "cc"@[0]);
                assert("rs"@ != "cc"@);
                assert("rs"@.len() != "cpp"@.len());
                assert("rs"@ != "cpp"@);
                assert("rs"@.len() != "cxx"@.len());
                assert("rs"@ != "cxx"@);
                assert("rs"@[0] != "hh"@[0]);
                assert("rs"@ != "hh"@);
                assert("rs"@.len() != "hpp"@.len());
                assert("rs"@ != "hpp"@);
                assert("rs"@.len() != "hxx"@.len());
                assert("rs"@ != "hxx"@);
                assert("rs"@[0] != "go"@[0]);
                assert("rs"@ != "go"@);
                assert("rs"@[0] != "js"@[0]);
                assert("rs"@ != "js"@);
                assert("rs"@.len() != "mjs"@.len());
                assert("rs"@ != "mjs"@);
                assert("rs"@.len() != "cjs"@.len());
                assert("rs"@ != "cjs"@);
                assert("rs"@[0] != "py"@[0]);
                assert("rs"@ != "py"@);
                assert("rs"@.len() != "pyw"@.len());
                assert("rs"@ != "pyw"@);
            }
        },
        Lang::Swift => {
            if i == 0 {
                assert("swift"@.len() != "sh"@.len());
                assert("swift"@ != "sh"@);
                assert("swift"@.len() != "bash"@.len());
                assert("swift"@ != "bash"@);
                assert("swift"@.len() != "zsh"@.len());
                assert("swift"@ != "zsh"@);
                assert("swift"@.len() != "c"@.len());
                assert("swift"@ != "c"@);
                assert("swift"@.len() != "h"@.len());
                assert("swift"@ != "h"@);
                assert("swift"@.len() != "cc"@.len());
                assert("swift"@ != "cc"@);
                assert("swift"@.len() != "cpp"@.len());
                assert("swift"@ != "cpp"@);
                assert("swift"@.len() != "cxx"@.len());
                assert("swift"@ != "cxx"@);
                assert("swift"@.len() != "hh"@.len());
                assert("swift"@ != "hh"@);
                assert("swift"@.len() != "hpp"@.len());
                assert("swift"@ != "hpp"@);
                assert("swift"@.len() != "hxx"@.len());
                assert("swift"@ != "hxx"@);
                assert("swift"@.len() != "go"@.len());
                assert("swift"@ != "go"@);
                assert("swift"@.len() != "js"@.len());
                assert("swift"@ != "js"@);
                assert("swift"@.len() != "mjs"@.len());
                assert("swift"@ != "mjs"@);
                assert("swift"@.len() != "cjs"@.len());
                assert("swift"@ != "cjs"@);
                assert("swift"@.len() != "py"@.len());
                assert("swift"@ != "py"@);
                assert("swift"@.len() != "pyw"@.len());
                assert("swift"@ != "pyw"@);
                assert("swift"@.len() != "rs"@.len());
                assert("swift"@ != "rs"@);
            }
        },
        Lang::TypeScript => {
            if i == 0 {
                assert("ts"@[0] != "sh"@[0]);
                assert("ts"@ != "sh"@);
                assert("ts"@.len() != "bash"@.len());
                assert("ts"@ != "bash"@);
                assert("ts"@.len() != "zsh"@.len());
                assert("ts"@ != "zsh"@);
                assert("ts"@.len() != "c"@.len());
                assert("ts"@ != "c"@);
                assert("ts"@.len() != "h"@.len());
                assert("ts"@ != "h"@);
                assert("ts"@[0] != "cc"@[0]);
                assert("ts"@ != "cc"@);
                assert("ts"@.len() != "cpp"@.len());
                assert("ts"@ != "cpp"@);
                assert("ts"@.len() != "cxx"@.len());
                assert("ts"@ != "cxx"@);
                assert("ts"@[0] != "hh"@[0]);
                assert("ts"@ != "hh"@);
                assert("ts"@.len() != "hpp"@.len());
                assert("ts"@ != "hpp"@);
                assert("ts"@.len() != "hxx"@.len());
                assert("ts"@ != "hxx"@);
                assert("ts"@[0] != "go"@[0]);
                assert("ts"@ != "go"@);
                assert("ts"@[0] != "js"@[0]);
                assert("ts"@ != "js"@);
                assert("ts"@.len() != "mjs"@.len());
                assert("ts"@ != "mjs"@);
                assert("ts"@.len() != "cjs"@.len());
                assert("ts"@ != "cjs"@);
                assert("ts"@[0] != "py"@[0]);
                assert("ts"@ != "py"@);
                assert("ts"@.len() != "pyw"@.len());
                assert("ts"@ != "pyw"@);
                assert("ts"@[0] != "rs"@[0]);
                assert("ts"@ != "rs"@);
                assert("ts"@.len() != "swift"@.len());
                assert("ts"@ != "swift"@);
            }
            if i == 1 {
                assert("tsx"@.len() != "sh"@.len());
                assert("tsx"@ != "sh"@);
                assert("tsx"@.len() != "bash"@.len());
                assert("tsx"@ != "bash"@);
                assert("tsx"@[0] != "zsh"@[0]);
                assert("tsx"@ != "zsh"@);
                assert("tsx"@.len() != "c"@.len());
                assert("tsx"@ != "c"@);
                assert("tsx"@.len() != "h"@.len());
                assert("tsx"@ != "h"@);
                assert("tsx"@.len() != "cc"@.len());
                assert("tsx"@ != "cc"@);
                assert("tsx"@[0] != "cpp"@[0]);
                assert("tsx"@ != "cpp"@);
                assert("tsx"@[0] != "cxx"@[0]);
                assert("tsx"@ != "cxx"@);
                assert("tsx"@.len() != "hh"@.len());
                assert("tsx"@ != "hh"@);
                assert("tsx"@[0] != "hpp"@[0]);
                assert("tsx"@ != "hpp"@);
                assert("tsx"@[0] != "hxx"@[0]);
                assert("tsx"@ != "hxx"@);
                assert("tsx"@.len() != "go"@.len());
                assert("tsx"@ != "go"@);
                assert("tsx"@.len() != "js"@.len());
                assert("tsx"@ != "js"@);
                assert("tsx"@[0] != "mjs"@[0]);
                assert("tsx"@ != "mjs"@);
                assert("tsx"@[0] != "cjs"@[0]);
                assert("tsx"@ != "cjs"@);
                assert("tsx"@.len() != "py"@.len());
                assert("tsx"@ != "py"@);
                assert("tsx"@[0] != "pyw"@[0]);
                assert("tsx"@ != "pyw"@);
                assert("tsx"@.len() != "rs"@.len());
                assert("tsx"@ != "rs"@);
                assert("tsx"@.len() != "swift"@.len());
                assert("tsx"@ != "swift"@);
            }
            if i == 2 {
                assert("mts"@.len() != "sh"@.len());
                assert("mts"@ != "sh"@);
                assert("mts"@.len() != "bash"@.len());
                assert("mts"@ != "bash"@);
                assert("mts"@[0] != "zsh"@[0]);
                assert("mts"@ != "zsh"@);
                assert("mts"@.len() != "c"@.len());
                assert("mts"@ != "c"@);
                assert("mts"@.len() != "h"@.len());
                assert("mts"@ != "h"@);
                assert("mts"@.len() != "cc"@.len());
                assert("mts"@ != "cc"@);
                assert("mts"@[0] != "cpp"@[0]);
                assert("mts"@ != "cpp"@);
                assert("mts"@[0] != "cxx"@[0]);
                assert("mts"@ != "cxx"@);
                assert("mts"@.len() != "hh"@.len());
                assert("mts"@ != "hh"@);
                assert("mts"@[0] != "hpp"@[0]);
                assert("mts"@ != "hpp"@);
                assert("mts"@[0] != "hxx"@[0]);
                assert("mts"@ != "hxx"@);
                assert("mts"@.len() != "go"@.len());
                assert("mts"@ != "go"@);
                assert("mts"@.len() != "js"@.len());
                assert("mts"@ != "js"@);
                assert("mts"@[1] != "mjs"@[1]);
                assert("mts"@ != "mjs"@);
                assert("mts"@[0] != "cjs"@[0]);
                assert("mts"@ != "cjs"@);
                assert("mts"@.len() != "py"@.len());
                assert("mts"@ != "py"@);
                assert("mts"@[0] != "pyw"@[0]);
                assert("mts"@ != "pyw"@);
                assert("mts"@.len() != "rs"@.len());
                assert("mts"@ != "rs"@);
                assert("mts"@.len() != "swift"@.len());
                assert("mts"@ != "swift"@);
            }
            if i == 3 {
                assert("cts"@.len() != "sh"@.len());
                assert("cts"@ != "sh"@);
                assert("cts"@.len() != "bash"@.len());
                assert("cts"@ != "bash"@);
                assert("cts"@[0] != "zsh"@[0]);
                assert("cts"@ != "zsh"@);
                assert("cts"@.len() != "c"@.len());
                assert("cts"@ != "c"@);
                assert("cts"@.len() != "h"@.len());
                assert("cts"@ != "h"@);
                assert("cts"@.len() != "cc"@.len());
                assert("cts"@ != "cc"@);
                assert("cts"@[1] != "cpp"@[1]);
                assert("cts"@ != "cpp"@);
                assert("cts"@[1] != "cxx"@[1]);
                assert("cts"@ != "cxx"@);
                assert("cts"@.len() != "hh"@.len());
                assert("cts"@ != "hh"@);
                assert("cts"@[0] != "hpp"@[0]);
                assert("cts"@ != "hpp"@);
                assert("cts"@[0] != "hxx"@[0]);
                assert("cts"@ != "hxx"@);
                assert("cts"@.len() != "go"@.len());
                assert("cts"@ != "go"@);
                assert("cts"@.len() != "js"@.len());
                assert("cts"@ != "js"@);
                assert("cts"@[0] != "mjs"@[0]);
                assert("cts"@ != "mjs"@);
                assert("cts"@[1] != "cjs"@[1]);
                assert("cts"@ != "cjs"@);
                assert("cts"@.len() != "py"@.len());
                assert("cts"@ != "py"@);
                assert("cts"@[0] != "pyw"@[0]);
                assert("cts"@ != "pyw"@);
                assert("cts"@.len() != "rs"@.len());
                assert("cts"@ != "rs"@);
                assert("cts"@.len() != "swift"@.len());
                assert("cts"@ != "swift"@);
            }
        },
    }
}

/// The kind of a top-level symbol.
#[derive(Debug, Clone, Copy, PartialEq, Eq)]
pub enum SymbolKind {
    Fn,
    Struct,
    Enum,
    Trait,
    Mod,
    Type,
    Const,
    Static,
    Macro,
    Class,
    Method,
    Interface,
    Namespace,
    Unknown,
}

/// The kind named by a capture prefix; unknown prefixes give `Unknown`.
pub open spec fn kind_of_prefix(p: Seq<char>) -> SymbolKind {
    if p == "fn"@ {
        SymbolKind::Fn
    } else if p == "struct"@ {
        SymbolKind::Struct
    } else if p == "enum"@ {
        SymbolKind::Enum
    } else if p == "trait"@ {
        SymbolKind::Trait
    } else if p == "mod"@ {
        SymbolKind::Mod
    } else if p == "type"@ {
        SymbolKind::Type
    } else if p == "const"@ {
        SymbolKind::Const
    } else if p == "static"@ {
        SymbolKind::Static
    } else if p == "macro"@ {
        SymbolKind::Macro
    } else if p == "class"@ {
        SymbolKind::Class
    } else if p == "method"@ {
        SymbolKind::Method
    } else if p == "interface"@ {
        SymbolKind::Interface
    } else if p == "namespace"@ {
        SymbolKind::Namespace
    } else {
        SymbolKind::Unknown
    }
}

/// The stored name of a kind.
pub open spec fn kind_name(k: SymbolKind) -> Seq<char> {
    match k {
        SymbolKind::Fn => "fn"@,
        SymbolKind::Struct => "struct"@,
        SymbolKind::Enum => "enum"@,
        SymbolKind::Trait => "trait"@,
        SymbolKind::Mod => "mod"@,
        SymbolKind::Type => "type"@,
        SymbolKind::Const => "const"@,
        SymbolKind::Static => "static"@,
        SymbolKind::Macro => "macro"@,
        SymbolKind::Class => "class"@,
        SymbolKind::Method => "method"@,
        SymbolKind::Interface => "interface"@,
        SymbolKind::Namespace => "namespace"@,
        SymbolKind::Unknown => "unknown"@,
    }
}

impl SymbolKind {
    /// The kind named by a capture prefix (`kind_of_prefix`).
    pub fn from_capture_prefix(prefix: &str) -> (r: SymbolKind)
        ensures
            r == kind_of_prefix(prefix@),
    {
        let p = chars_of(prefix);
        if is(&p, "fn") {
            return SymbolKind::Fn;
        }
        if is(&p, "struct") {
            return SymbolKind::Struct;
        }
        if is(&p, "enum") {
            return SymbolKind::Enum;
        }
        if is(&p, "trait") {
            return SymbolKind::Trait;
        }
        if is(&p, "mod") {
            return SymbolKind::Mod;
        }
        if is(&p, "type") {
            return SymbolKind::Type;
        }
        if is(&p, "const") {
            return SymbolKind::Const;
        }
        if is(&p, "static") {
            return SymbolKind::Static;
        }
        if is(&p, "macro") {
            return SymbolKind::Macro;
        }
        if is(&p, "class") {
            return SymbolKind::Class;
        }
        if is(&p, "method") {
            return SymbolKind::Method;
        }
        if is(&p, "interface") {
            return SymbolKind::Interface;
        }
        if is(&p, "namespace") {
            return SymbolKind::Namespace;
        }
        SymbolKind::Unknown
    }

    /// The name stored for the kind.
    pub fn as_str(&self) -> (r: &'static str)
        ensures
            r@ == kind_name(*self),
    {
        match self {
            SymbolKind::Fn => "fn",
            SymbolKind::Struct => "struct",
            SymbolKind::Enum => "enum",
            SymbolKind::Trait => "trait",
            SymbolKind::Mod => "mod",
            SymbolKind::Type => "type",
            SymbolKind::Const => "const",
            SymbolKind::Static => "static",
            SymbolKind::Macro => "macro",
            SymbolKind::Class => "class",
            SymbolKind::Method => "method",
            SymbolKind::Interface => "interface",
            SymbolKind::Namespace => "namespace",
            SymbolKind::Unknown => "unknown",
        }
    }

    /// The kind a stored name denotes.
    pub fn from_str(s: &str) -> (r: SymbolKind)
        ensures
            r == kind_of_prefix(s@),
    {
        Self::from_capture_prefix(s)
    }
}

/// Storing a kind and reading it back gives the same kind.
pub proof fn law_kind_round_trip(k: SymbolKind)
    ensures
        kind_of_prefix(kind_name(k)) == k,
{
    reveal_strlit("fn");
    reveal_strlit("struct");
    reveal_strlit("enum");
    reveal_strlit("trait");
    reveal_strlit("mod");
    reveal_strlit("type");
    reveal_strlit("const");
    reveal_strlit("static");
    reveal_strlit("macro");
    reveal_strlit("class");
    reveal_strlit("method");
    reveal_strlit("interface");
    reveal_strlit("namespace");
    reveal_strlit("unknown");
    match k {
        SymbolKind::Fn => {
        },
        SymbolKind::Struct => {
            assert("struct"@.len() != "fn"@.len());
            assert("struct"@ != "fn"@);
        },
        SymbolKind::Enum => {
            assert("enum"@.len() != "fn"@.len());
            assert("enum"@ != "fn"@);
            assert("enum"@.len() != "struct"@.len());
            assert("enum"@ != "struct"@);
        },
        SymbolKind::Trait => {
            assert("trait"@.len() != "fn"@.len());
            assert("trait"@ != "fn"@);
            assert("trait"@.len() != "struct"@.len());
            assert("trait"@ != "struct"@);
            assert("trait"@.len() != "enum"@.len());
            assert("trait"@ != "enum"@);
        },
        SymbolKind::Mod => {
            assert("mod"@.len() != "fn"@.len());
            assert("mod"@ != "fn"@);
            assert("mod"@.len() != "struct"@.len());
            assert("mod"@ != "struct"@);
            assert("mod"@.len() != "enum"@.len());
            assert("mod"@ != "enum"@);
            assert("mod"@.len() != "trait"@.len());
            assert("mod"@ != "trait"@);
        },
        SymbolKind::Type => {
            assert("type"@.len() != "fn"@.len());
            assert("type"@ != "fn"@);
            assert("type"@.len() != "struct"@.len());
            assert("type"@ != "struct"@);
            assert("type"@[0] != "enum"@[0]);
            assert("type"@ != "enum"@);
            assert("type"@.len() != "trait"@.len());
            assert("type"@ != "trait"@);
            assert("type"@.len() != "mod"@.len());
            assert("type"@ != "mod"@);
        },
        SymbolKind::Const => {
            assert("const"@.len() != "fn"@.len());
            assert("const"@ != "fn"@);
            assert("const"@.len() != "struct"@.len());
            assert("const"@ != "struct"@);
            assert("const"@.len() != "enum"@.len());
            assert("const"@ != "enum"@);
            assert("const"@[0] != "trait"@[0]);
            assert("const"@ != "trait"@);
            assert("const"@.len() != "mod"@.len());
            assert("const"@ != "mod"@);
            assert("const"@.len() != "type"@.len());
            assert("const"@ != "type"@);
        },
        SymbolKind::Static => {
            assert("static"@.len() != "fn"@.len());
            assert("static"@ != "fn"@);
            assert("static"@[2] != "struct"@[2]);
            assert("static"@ != "struct"@);
            assert("static"@.len() != "enum"@.len());
            assert("static"@ != "enum"@);
            assert("static"@.len() != "trait"@.len());
            assert("static"@ != "trait"@);
            assert("static"@.len() != "mod"@.len());
            assert("static"@ != "mod"@);
            assert("static"@.len() != "type"@.len());
            assert("static"@ != "type"@);
            assert("static"@.len() != "const"@.len());
            assert("static"@ != "const"@);
        },
        SymbolKind::Macro => {
            assert("macro"@.len() != "fn"@.len());
            assert("macro"@ != "fn"@);
            assert("macro"@.len() != "struct"@.len());
            assert("macro"@ != "struct"@);
            assert("macro"@.len() != "enum"@.len());
            assert("macro"@ != "enum"@);
            assert("macro"@[0] != "trait"@[0]);
            assert("macro"@ != "trait"@);
            assert("macro"@.len() != "mod"@.len());
            assert("macro"@ != "mod"@);
            assert("macro"@.len() != "type"@.len());
            assert("macro"@ != "type"@);
            assert("macro"@[0] != "const"@[0]);
            assert("macro"@ != "const"@);
            assert("macro"@.len() != "static"@.len());
            assert("macro"@ != "static"@);
        },
        SymbolKind::Class => {
            assert("class"@.len() != "fn"@.len());
            assert("class"@ != "fn"@);
            assert("class"@.len() != "struct"@.len());
            assert("class"@ != "struct"@);
            assert("class"@.len() != "enum"@.len());
            assert("class"@ != "enum"@);
            assert("class"@[0] != "trait"@[0]);
            assert("class"@ != "trait"@);
            assert("class"@.len() != "mod"@.len());
            assert("class"@ != "mod"@);
            assert("class"@.len() != "type"@.len());
            assert("class"@ != "type"@);
            assert("class"@[1] != "const"@[1]);
            assert("class"@ != "const"@);
            assert("class"@.len() != "static"@.len());
            assert("class"@ != "static"@);
            assert("class"@[0] != "macro"@[0]);
            assert("class"@ != "macro"@);
        },
        SymbolKind::Method => {
            assert("method"@.len() != "fn"@.len());
            assert("method"@ != "fn"@);
            assert("method"@[0] != "struct"@[0]);
            assert("method"@ != "struct"@);
            assert("method"@.len() != "enum"@.len());
            assert("method"@ != "enum"@);
            assert("method"@.len() != "trait"@.len());
            assert("method"@ != "trait"@);
            assert("method"@.len() != "mod"@.len());
            assert("method"@ != "mod"@);
            assert("method"@.len() != "type"@.len());
            assert("method"@ != "type"@);
            assert("method"@.len() != "const"@.len());
            assert("method"@ != "const"@);
            assert("method"@[0] != "static"@[0]);
            assert("method"@ != "static"@);
            assert("method"@.len() != "macro"@.len());
            assert("method"@ != "macro"@);
            assert("method"@.len() != "class"@.len());
            assert("method"@ != "class"@);
        },
        SymbolKind::Interface => {
            assert("interface"@.len() != "fn"@.len());
            assert("interface"@ != "fn"@);
            assert("interface"@.len() != "struct"@.len());
            assert("interface"@ != "struct"@);
            assert("interface"@.len() != "enum"@.len());
            assert("interface"@ != "enum"@);
            assert("interface"@.len() != "trait"@.len());
            assert("interface"@ != "trait"@);
            assert("interface"@.len() != "mod"@.len());
            assert("interface"@ != "mod"@);
            assert("interface"@.len() != "type"@.len());
            assert("interface"@ != "type"@);
            assert("interface"@.len() != "const"@.len());
            assert("interface"@ != "const"@);
            assert("interface"@.len() != "static"@.len());
            assert("interface"@ != "static"@);
            assert("interface"@.len() != "macro"@.len());
            assert("interface"@ != "macro"@);
            assert("interface"@.len() != "class"@.len());
            assert("interface"@ != "class"@);
            assert("interface"@.len() != "method"@.len());
            assert("interface"@ != "method"@);
        },
        SymbolKind::Namespace => {
            assert("namespace"@.len() != "fn"@.len());
            assert("namespace"@ != "fn"@);
            assert("namespace"@.len() != "struct"@.len());
            assert("namespace"@ != "struct"@);
            assert("namespace"@.len() != "enum"@.len());
            assert("namespace"@ != "enum"@);
            assert("namespace"@.len() != "trait"@.len());
            assert("namespace"@ != "trait"@);
            assert("namespace"@.len() != "mod"@.len());
            assert("namespace"@ != "mod"@);
            assert("namespace"@.len() != "type"@.len());
            assert("namespace"@ != "type"@);
            assert("namespace"@.len() != "const"@.len());
            assert("namespace"@ != "const"@);
            assert("namespace"@.len() != "static"@.len());
            assert("namespace"@ != "static"@);
            assert("namespace"@.len() != "macro"@.len());
            assert("namespace"@ != "macro"@);
            assert("namespace"@.len() != "class"@.len());
            assert("namespace"@ != "class"@);
            assert("namespace"@.len() != "method"@.len());
            assert("namespace"@ != "method"@);
            assert("namespace"@[0] != "interface"@[0]);
            assert("namespace"@ != "interface"@);
        },
        SymbolKind::Unknown => {
            assert("unknown"@.len() != "fn"@.len());
            assert("unknown"@ != "fn"@);
            assert("unknown"@.len() != "struct"@.len());
            assert("unknown"@ != "struct"@);
            assert("unknown"@.len() != "enum"@.len());
            assert("unknown"@ != "enum"@);
            assert("unknown"@.len() != "trait"@.len());
            assert("unknown"@ != "trait"@);
            assert("unknown"@.len() != "mod"@.len());
            assert("unknown"@ != "mod"@);
            assert("unknown"@.len() != "type"@.len());
            assert("unknown"@ != "type"@);
            assert("unknown"@.len() != "const"@.len());
            assert("unknown"@ != "const"@);
            assert("unknown"@.len() != "static"@.len());
            assert("unknown"@ != "static"@);
            assert("unknown"@.len() != "macro"@.len());
            assert("unknown"@ != "macro"@);
            assert("unknown"@.len() != "class"@.len());
            assert("unknown"@ != "class"@);
            assert("unknown"@.len() != "method"@.len());
            assert("unknown"@ != "method"@);
            assert("unknown"@.len() != "interface"@.len());
            assert("unknown"@ != "interface"@);
            assert("unknown"@.len() != "namespace"@.len());
            assert("unknown"@ != "namespace"@);
        },
    }
}

/// The tree-sitter query that captures the top-level symbols of a
/// language; each capture is named `<kind>.name`.
pub open spec fn symbols_query_text(lang: Lang) -> Seq<char> {
    match lang {
        Lang::Rust => {
            "(function_item name: (identifier) @fn.name)
             (struct_item name: (type_identifier) @struct.name)
             (enum_item name: (type_identifier) @enum.name)
             (trait_item name: (type_identifier) @trait.name)
             (mod_item name: (identifier) @mod.name)
             (type_item name: (type_identifier) @type.name)
             (const_item name: (identifier) @const.name)
             (static_item name: (identifier) @static.name)
             (macro_definition name: (identifier) @macro.name)"@
        }
        Lang::Python => {
            "(function_definition name: (identifier) @fn.name)
             (class_definition name: (identifier) @class.name)"@
        }
        Lang::JavaScript => {
            "(function_declaration name: (identifier) @fn.name)
             (class_declaration name: (identifier) @class.name)
             (method_definition name: (property_identifier) @method.name)"@
        }
        Lang::TypeScript => {
            "(function_declaration name: (identifier) @fn.name)
             (class_declaration name: (type_identifier) @class.name)
             (method_definition name: (property_identifier) @method.name)
             (interface_declaration name: (type_identifier) @interface.name)
             (type_alias_declaration name: (type_identifier) @type.name)
             (enum_declaration name: (identifier) @enum.name)"@
        }
        Lang::Go => {
            "(function_declaration name: (identifier) @fn.name)
             (method_declaration name: (field_identifier) @method.name)
             (type_spec name: (type_identifier) @type.name)"@
        }
        Lang::C => {
            "(function_definition
               declarator: (function_declarator
                 declarator: (identifier) @fn.name))
             (struct_specifier name: (type_identifier) @struct.name)
             (enum_specifier name: (type_identifier) @enum.name)"@
        }
        Lang::Cpp => {
            "(function_definition
               declarator: (function_declarator
                 declarator: [(identifier) @fn.name
                              (qualified_identifier) @fn.name]))
             (class_specifier name: (type_identifier) @class.name)
             (struct_specifier name: (type_identifier) @struct.name)
             (enum_specifier name: (type_identifier) @enum.name)
             (namespace_definition name: (namespace_identifier) @namespace.name)"@
        }
        Lang::Swift => {
            "(class_declaration
               declaration_kind: \"struct\"
               name: (type_identifier) @struct.name)
             (class_declaration
               declaration_kind: \"class\"
               name: (type_identifier) @class.name)
             (class_declaration
               declaration_kind: \"actor\"
               name: (type_identifier) @class.name)
             (class_declaration
               declaration_kind: \"enum\"
               name: (type_identifier) @enum.name)
             (class_declaration
               declaration_kind: \"extension\"
               name: (type_identifier) @type.name)
             (function_declaration
               (simple_identifier) @fn.name)
             (protocol_declaration
               name: (type_identifier) @interface.name)
             (typealias_declaration
               name: (type_identifier) @type.name)"@
        }
        Lang::Bash => "(function_definition name: (word) @fn.name)"@,
    }
}

/// The symbol query of a language (`symbols_query_text`).
pub fn symbols_query(lang: Lang) -> (r: &'static str)
    ensures
        r@ == symbols_query_text(lang),
{
    match lang {
        Lang::Rust => {
            "(function_item name: (identifier) @fn.name)
             (struct_item name: (type_identifier) @struct.name)
             (enum_item name: (type_identifier) @enum.name)
             (trait_item name: (type_identifier) @trait.name)
             (mod_item name: (identifier) @mod.name)
             (type_item name: (type_identifier) @type.name)
             (const_item name: (identifier) @const.name)
             (static_item name: (identifier) @static.name)
             (macro_definition name: (identifier) @macro.name)"
        }
        Lang::Python => {
            "(function_definition name: (identifier) @fn.name)
             (class_definition name: (identifier) @class.name)"
        }
        Lang::JavaScript => {
            "(function_declaration name: (identifier) @fn.name)
             (class_declaration name: (identifier) @class.name)
             (method_definition name: (property_identifier) @method.name)"
        }
        Lang::TypeScript => {
            "(function_declaration name: (identifier) @fn.name)
             (class_declaration name: (type_identifier) @class.name)
             (method_definition name: (property_identifier) @method.name)
             (interface_declaration name: (type_identifier) @interface.name)
             (type_alias_declaration name: (type_identifier) @type.name)
             (enum_declaration name: (identifier) @enum.name)"
        }
        Lang::Go => {
            "(function_declaration name: (identifier) @fn.name)
             (method_declaration name: (field_identifier) @method.name)
             (type_spec name: (type_identifier) @type.name)"
        }
        Lang::C => {
            "(function_definition
               declarator: (function_declarator
                 declarator: (identifier) @fn.name))
             (struct_specifier name: (type_identifier) @struct.name)
             (enum_specifier name: (type_identifier) @enum.name)"
        }
        Lang::Cpp => {
            "(function_definition
               declarator: (function_declarator
                 declarator: [(identifier) @fn.name
                              (qualified_identifier) @fn.name]))
             (class_specifier name: (type_identifier) @class.name)
             (struct_specifier name: (type_identifier) @struct.name)
             (enum_specifier name: (type_identifier) @enum.name)
             (namespace_definition name: (namespace_identifier) @namespace.name)"
        }
        Lang::Swift => {
            "(class_declaration
               declaration_kind: \"struct\"
               name: (type_identifier) @struct.name)
             (class_declaration
               declaration_kind: \"class\"
               name: (type_identifier) @class.name)
             (class_declaration
               declaration_kind: \"actor\"
               name: (type_identifier) @class.name)
             (class_declaration
               declaration_kind: \"enum\"
               name: (type_identifier) @enum.name)
             (class_declaration
               declaration_kind: \"extension\"
               name: (type_identifier) @type.name)
             (function_declaration
               (simple_identifier) @fn.name)
             (protocol_declaration
               name: (type_identifier) @interface.name)
             (typealias_declaration
               name: (type_identifier) @type.name)"
        }
        Lang::Bash => "(function_definition name: (word) @fn.name)",
    }
}

// ---------------------------------------------------------------------------
// Symbols from query matches
// ---------------------------------------------------------------------------

/// One capture of a query.
#[derive(Debug, Clone, PartialEq, Eq)]
pub struct QueryMatch {
    pub capture: String,
    pub text: String,
    pub file: String,
    pub start_line: usize,
    pub end_line: usize,
}

/// A top-level symbol.
#[derive(Debug, Clone, PartialEq, Eq)]
pub struct Symbol {
    pub name: String,
    pub kind: SymbolKind,
    pub file: String,
    pub line: usize,
}

pub struct SymbolView {
    pub name: Seq<char>,
    pub kind: SymbolKind,
    pub file: Seq<char>,
    pub line: usize,
}

impl View for Symbol {
    type V = SymbolView;

    open spec fn view(&self) -> SymbolView {
        SymbolView { name: self.name@, kind: self.kind, file: self.file@, line: self.line }
    }
}

pub open spec fn symbols_view(v: Seq<Symbol>) -> Seq<SymbolView> {
    v.map_values(|x: Symbol| x@)
}

/// `s` without its leading `@` characters.
pub open spec fn strip_ats(s: Seq<char>) -> Seq<char>
    decreases s.len(),
{
    if s.len() > 0 && s[0] == '@' {
        strip_ats(s.drop_first())
    } else {
        s
    }
}

/// `s` up to its first `.`.
pub open spec fn before_dot(s: Seq<char>) -> Seq<char>
    decreases s.len(),
{
    if s.len() == 0 || s[0] == '.' {
        Seq::empty()
    } else {
        seq![s[0]] + before_dot(s.drop_first())
    }
}

/// The symbol a capture of the symbol query names: its text, the kind
/// before the first `.` of the capture name, its file and first line.
pub open spec fn match_symbol(capture: Seq<char>, text: Seq<char>, file: Seq<char>, line: usize) -> SymbolView {
    SymbolView { name: text, kind: kind_of_prefix(before_dot(strip_ats(capture))), file: file, line: line }
}

fn strip_ats_exec(s: &[char]) -> (r: usize)
    ensures
        r <= s.len(),
        s@.skip(r as int) == strip_ats(s@),
{
    let mut i: usize = 0;
    assert(s@.skip(0) =~= s@);
    while i < s.len() && s[i] == '@'
        invariant
            i <= s.len(),
            strip_ats(s@) == strip_ats(s@.skip(i as int)),
        decreases s.len() - i,
    {
        assert(s@.skip(i as int).drop_first() =~= s@.skip(i + 1));
        i += 1;
    }
    proof {
        if i < s.len() {
            assert(s@.skip(i as int)[0] == s@[i as int]);
        } else {
            assert(s@.skip(i as int) =~= Seq::<char>::empty());
        }
    }
    i
}

fn before_dot_exec(s: &[char], from: usize) -> (r: Vec<char>)
    requires
        from <= s.len(),
    ensures
        r@ == before_dot(s@.skip(from as int)),
    decreases s.len() - from,
{
    if from == s.len() || s[from] == '.' {
        let r: Vec<char> = Vec::new();
        proof {
            if from < s.len() {
                assert(s@.skip(from as int)[0] == s@[from as int]);
            } else {
                assert(s@.skip(from as int) =~= Seq::<char>::empty());
            }
        }
        r
    } else {
        let rest = before_dot_exec(s, from + 1);
        let mut r = vec![s[from]];
        let ghost t = s@.skip(from as int);
        assert(t.drop_first() =~= s@.skip(from + 1));
        assert(t[0] == s@[from as int]);
        r.append(&mut rest.clone());
        assert(r@ =~= seq![s@[from as int]] + rest@);
        r
    }
}

/// The symbol a query capture names (`match_symbol`).
pub fn symbol_from_match(m: QueryMatch) -> (r: Symbol)
    ensures
        r@ == match_symbol(m.capture@, m.text@, m.file@, m.start_line),
{
    let c = chars_of(m.capture.as_str());
    let start = strip_ats_exec(&c);
    let prefix = before_dot_exec(&c, start);
    let p = string_from_chars(&prefix);
    Symbol { name: m.text, kind: SymbolKind::from_capture_prefix(p.as_str()), file: m.file, line: m.start_line }
}

/// Order by file, then line.
pub open spec fn sym_lt(a: SymbolView, b: SymbolView) -> bool {
    seq_lt(a.file, b.file) || (a.file == b.file && a.line < b.line)
}

/// Inserts `x` after every symbol that does not come after it.
pub open spec fn sym_insert(s: Seq<SymbolView>, x: SymbolView) -> Seq<SymbolView>
    decreases s.len(),
{
    if s.len() == 0 {
        seq![x]
    } else if sym_lt(x, s[0]) {
        seq![x] + s
    } else {
        seq![s[0]] + sym_insert(s.drop_first(), x)
    }
}

/// The symbols sorted by file and line, keeping the order of equal ones
/// (what a stable sort gives).
pub open spec fn sort_symbols(s: Seq<SymbolView>) -> Seq<SymbolView>
    decreases s.len(),
{
    if s.len() == 0 {
        Seq::empty()
    } else {
        sym_insert(sort_symbols(s.drop_last()), s.last())
    }
}

fn sym_lt_exec(a: &Symbol, b: &Symbol) -> (r: bool)
    ensures
        r == sym_lt(a@, b@),
{
    let af = chars_of(a.file.as_str());
    let bf = chars_of(b.file.as_str());
    chars_lt(&af, &bf) || (chars_eq(&af, &bf) && a.line < b.line)
}

fn insert_symbol(v: &mut Vec<Symbol>, x: Symbol)
    ensures
        symbols_view(final(v)@) == sym_insert(symbols_view(old(v)@), x@),
{
    let ghost orig = symbols_view(v@);
    let ghost xv = x@;
    let mut i: usize = 0;
    assert(orig.skip(0) =~= orig);
    assert(orig.take(0) + orig =~= orig);
    while i < v.len()
        invariant
            i <= v.len(),
            v@ == old(v)@,
            orig == symbols_view(v@),
            xv == x@,
            sym_insert(orig, xv) == orig.take(i as int) + sym_insert(orig.skip(i as int), xv),
        ensures
            i <= v.len(),
            v@ == old(v)@,
            sym_insert(orig, xv) == orig.take(i as int) + sym_insert(orig.skip(i as int), xv),
            i < v.len() ==> sym_lt(xv, orig[i as int]),
        decreases v.len() - i,
    {
        if sym_lt_exec(&x, &v[i]) {
            break;
        }
        proof {
            let rest = orig.skip(i as int);
            assert(rest[0] == orig[i as int]);
            assert(rest.drop_first() =~= orig.skip(i + 1));
            assert(orig.take(i as int) + seq![orig[i as int]] =~= orig.take(i + 1));
            assert(orig.take(i as int) + (seq![orig[i as int]] + sym_insert(orig.skip(i + 1), xv))
                =~= orig.take(i + 1) + sym_insert(orig.skip(i + 1), xv));
        }
        i += 1;
    }
    let ghost rest = orig.skip(i as int);
    v.insert(i, x);
    proof {
        if i < orig.len() {
            assert(rest[0] == orig[i as int]);
        } else {
            assert(rest =~= Seq::<SymbolView>::empty());
        }
        assert(symbols_view(v@) =~= orig.take(i as int) + (seq![xv] + rest));
    }
}

fn clone_symbol(s: &Symbol) -> (r: Symbol)
    ensures
        r@ == s@,
{
    Symbol { name: s.name.clone(), kind: s.kind, file: s.file.clone(), line: s.line }
}

/// Sorts symbols by file and line, stably (`sort_symbols`).
pub fn sort_symbols_exec(v: &Vec<Symbol>) -> (r: Vec<Symbol>)
    ensures
        symbols_view(r@) == sort_symbols(symbols_view(v@)),
{
    let ghost sv = symbols_view(v@);
    let mut out: Vec<Symbol> = Vec::new();
    let mut i: usize = 0;
    assert(symbols_view(out@) =~= sort_symbols(sv.take(0)));
    while i < v.len()
        invariant
            i <= v.len(),
            sv == symbols_view(v@),
            symbols_view(out@) == sort_symbols(sv.take(i as int)),
        decreases v.len() - i,
    {
        let x = clone_symbol(&v[i]);
        proof {
            assert(sv.take(i + 1).drop_last() =~= sv.take(i as int));
            assert(sv.take(i + 1).last() == sv[i as int]);
        }
        insert_symbol(&mut out, x);
        i += 1;
    }
    assert(sv.take(v.len() as int) =~= sv);
    out
}

/// An error of a symbol query.
#[derive(Debug, Clone, PartialEq, Eq)]
pub struct QueryError {
    pub message: String,
}

/// The languages to query for symbols: the one given; else, for a file,
/// the language of its extension (none known: nothing to query); else, for
/// a directory, every language.
pub open spec fn symbol_langs_spec(lang: Option<Lang>, is_file: bool, ext: Seq<char>) -> Option<Seq<Lang>> {
    match lang {
        Some(l) => Some(seq![l]),
        None => if is_file {
            match lang_of_extension(ext) {
                Some(l) => Some(seq![l]),
                None => None,
            }
        } else {
            Some(all_langs())
        },
    }
}

/// The languages to query (`symbol_langs_spec`); `None` means the file's
/// language is unknown and it has no symbols.
pub fn symbol_langs(lang: Option<Lang>, is_file: bool, ext: &str) -> (r: Option<Vec<Lang>>)
    ensures
        match r {
            Some(v) => symbol_langs_spec(lang, is_file, ext@) == Some(v@),
            None => symbol_langs_spec(lang, is_file, ext@) is None,
        },
{
    match lang {
        Some(l) => {
            let v = vec![l];
            assert(v@ =~= seq![l]);
            Some(v)
        },
        None => if is_file {
            match Lang::from_extension(ext) {
                Some(l) => {
                    let v = vec![l];
                    assert(v@ =~= seq![l]);
                    Some(v)
                },
                None => None,
            }
        } else {
            let v = vec![
                Lang::Bash,
                Lang::C,
                Lang::Cpp,
                Lang::Go,
                Lang::JavaScript,
                Lang::Python,
                Lang::Rust,
                Lang::Swift,
                Lang::TypeScript,
            ];
            assert(v@ =~= all_langs());
            Some(v)
        },
    }
}

pub open spec fn matches_symbols(ms: Seq<QueryMatch>) -> Seq<SymbolView> {
    ms.map_values(|m: QueryMatch| match_symbol(m.capture@, m.text@, m.file@, m.start_line))
}

/// The symbols of the queries run so far, or the first query error.
pub open spec fn collect_results(rs: Seq<Result<Vec<QueryMatch>, QueryError>>) -> Result<Seq<SymbolView>, QueryError>
    decreases rs.len(),
{
    if rs.len() == 0 {
        Ok(Seq::empty())
    } else {
        match collect_results(rs.drop_last()) {
            Err(e) => Err(e),
            Ok(acc) => match rs.last() {
                Err(e) => Err(e),
                Ok(ms) => Ok(acc + matches_symbols(ms@)),
            },
        }
    }
}

/// The symbols of a path from the outcome of each language's query, in
/// the order the languages were queried: the first error, or all symbols
/// sorted by file and line.
pub fn run_symbols(results: Vec<Result<Vec<QueryMatch>, QueryError>>) -> (r: Result<Vec<Symbol>, QueryError>)
    ensures
        match collect_results(results@) {
            Err(e) => r == Err::<Vec<Symbol>, QueryError>(e),
            Ok(all) => r matches Ok(v) && symbols_view(v@) == sort_symbols(all),
        },
{
    let ghost rs = results@;
    let mut all: Vec<Symbol> = Vec::new();
    let mut i: usize = 0;
    assert(rs.take(0) =~= Seq::<Result<Vec<QueryMatch>, QueryError>>::empty());
    assert(symbols_view(all@) =~= Seq::<SymbolView>::empty());
    while i < results.len()
        invariant
            i <= results.len(),
            results@ == rs,
            collect_results(rs.take(i as int)) == Ok::<Seq<SymbolView>, QueryError>(symbols_view(all@)),
        decreases results.len() - i,
    {
        proof {
            assert(rs.take(i + 1).drop_last() =~= rs.take(i as int));
            assert(rs.take(i + 1).last() == rs[i as int]);
        }
        match &results[i] {
            Err(e) => {
                let e2 = QueryError { message: e.message.clone() };
                assert(e2 == *e);
                proof {
                    assert(collect_results(rs.take(i + 1)) == Err::<Seq<SymbolView>, QueryError>(e2));
                    lemma_collect_err(rs, i as int + 1, e2);
                    assert(collect_results(rs) == Err::<Seq<SymbolView>, QueryError>(e2));
                }
                let r: Result<Vec<Symbol>, QueryError> = Err(e2);
                assert(r == Err::<Vec<Symbol>, QueryError>(e2));
                return r;
            },
            Ok(ms) => {
                let mut j: usize = 0;
                let ghost base = symbols_view(all@);
                while j < ms.len()
                    invariant
                        j <= ms.len(),
                        symbols_view(all@) == base + matches_symbols(ms@).take(j as int),
                    decreases ms.len() - j,
                {
                    let m = QueryMatch {
                        capture: ms[j].capture.clone(),
                        text: ms[j].text.clone(),
                        file: ms[j].file.clone(),
                        start_line: ms[j].start_line,
                        end_line: ms[j].end_line,
                    };
                    let sym = symbol_from_match(m);
                    let ghost prev = all@;
                    let ghost sv = sym@;
                    all.push(sym);
                    proof {
                        assert(all@ =~= prev.push(sym));
                        assert(symbols_view(all@) =~= symbols_view(prev).push(sv));
                        let full = matches_symbols(ms@);
                        assert(full.take(j + 1) =~= full.take(j as int).push(full[j as int]));
                        assert(base + full.take(j + 1) =~= (base + full.take(j as int)).push(full[j as int]));
                    }
                    j += 1;
                }
                assert(matches_symbols(ms@).take(ms.len() as int) =~= matches_symbols(ms@));
            },
        }
        i += 1;
    }
    assert(rs.take(results.len() as int) =~= rs);
    Ok(sort_symbols_exec(&all))
}

/// Once a query failed, the outcome is that failure.
proof fn lemma_collect_err(rs: Seq<Result<Vec<QueryMatch>, QueryError>>, i: int, e: QueryError)
    requires
        0 < i <= rs.len(),
        collect_results(rs.take(i)) == Err::<Seq<SymbolView>, QueryError>(e),
    ensures
        collect_results(rs) == Err::<Seq<SymbolView>, QueryError>(e),
    decreases rs.len() - i,
{
    if i < rs.len() {
        assert(rs.take(i + 1).drop_last() =~= rs.take(i));
        lemma_collect_err(rs, i + 1, e);
    } else {
        assert(rs.take(i) =~= rs);
    }
}

/// The symbols of each file from the outcome of its query (one language
/// per file), in order: the first error, or each file's sorted symbols with
/// its path and modification time.
pub fn run_symbols_for_files(
    files: Vec<(String, crate::models::Timestamp, Result<Vec<QueryMatch>, QueryError>)>,
) -> (r: Result<Vec<(String, crate::models::Timestamp, Vec<Symbol>)>, QueryError>)
    ensures
        r is Ok ==> r->Ok_0.len() == files.len(),
        r is Ok ==> forall|k: int| 0 <= k < files.len() ==> {
            &&& (#[trigger] r->Ok_0@[k]).0@ == files@[k].0@
            &&& r->Ok_0@[k].1 == files@[k].1
            &&& files@[k].2 matches Ok(ms) && symbols_view(r->Ok_0@[k].2@) == sort_symbols(matches_symbols(ms@))
        },
        r is Err ==> exists|k: int| 0 <= k < files.len() && #[trigger] files@[k].2 == Err::<Vec<QueryMatch>, QueryError>(r->Err_0) && forall|j: int|
            0 <= j < k ==> (#[trigger] files@[j].2) is Ok,
{
    let mut out: Vec<(String, crate::models::Timestamp, Vec<Symbol>)> = Vec::new();
    let ghost fs = files@;
    let mut i: usize = 0;
    while i < files.len()
        invariant
            i <= files.len(),
            files@ == fs,
            out.len() == i,
            forall|k: int| 0 <= k < i ==> (#[trigger] fs[k].2) is Ok,
            forall|k: int| 0 <= k < i ==> {
                &&& (#[trigger] out@[k]).0@ == fs[k].0@
                &&& out@[k].1 == fs[k].1
                &&& fs[k].2 matches Ok(ms) && symbols_view(out@[k].2@) == sort_symbols(matches_symbols(ms@))
            },
        decreases files.len() - i,
    {
        let (path, mtime) = (files[i].0.clone(), files[i].1);
        match &files[i].2 {
            Err(e) => {
                let e2 = QueryError { message: e.message.clone() };
                assert(e2 == *e);
                assert(files@[i as int].2 == Err::<Vec<QueryMatch>, QueryError>(e2));
                assert(forall|j: int| 0 <= j < i ==> (#[trigger] files@[j].2) is Ok);
                return Err(e2);
            },
            Ok(ms) => {
                let mut copy: Vec<QueryMatch> = Vec::new();
                let mut j: usize = 0;
                while j < ms.len()
                    invariant
                        j <= ms.len(),
                        matches_symbols(copy@) =~= matches_symbols(ms@).take(j as int),
                    decreases ms.len() - j,
                {
                    let m = QueryMatch {
                        capture: ms[j].capture.clone(),
                        text: ms[j].text.clone(),
                        file: ms[j].file.clone(),
                        start_line: ms[j].start_line,
                        end_line: ms[j].end_line,
                    };
                    let ghost prev = copy@;
                    copy.push(m);
                    proof {
                        assert(copy@ =~= prev.push(m));
                        let full = matches_symbols(ms@);
                        assert(full.take(j + 1) =~= full.take(j as int).push(full[j as int]));
                        assert(matches_symbols(copy@) =~= matches_symbols(prev).push(full[j as int]));
                    }
                    j += 1;
                }
                assert(matches_symbols(copy@) =~= matches_symbols(ms@));
                let ghost want = sort_symbols(matches_symbols(ms@));
                let mut one: Vec<Result<Vec<QueryMatch>, QueryError>> = Vec::new();
                one.push(Ok(copy));
                proof {
                    assert(one@.drop_last() =~= Seq::<Result<Vec<QueryMatch>, QueryError>>::empty());
                    assert(collect_results(one@.drop_last()) == Ok::<Seq<SymbolView>, QueryError>(Seq::empty()));
                    assert(matches_symbols(Seq::<QueryMatch>::empty().add(copy@)) =~= matches_symbols(copy@));
                    assert(Seq::<SymbolView>::empty() + matches_symbols(copy@) =~= matches_symbols(copy@));
                }
                match run_symbols(one) {
                    Ok(syms) => {
                        out.push((path, mtime, syms));
                    },
                    Err(_) => {
                        assert(false);
                        return Err(QueryError { message: String::new() });
                    },
                }
            },
        }
        i += 1;
    }
    Ok(out)
}

// ---------------------------------------------------------------------------
// Query results
// ---------------------------------------------------------------------------

/// The most captures a query returns.
pub const MAX_MATCHES: usize = 500;

/// Whether a file with the given extension is queried for a language.
pub fn file_selected(lang: Lang, ext: &str) -> (r: bool)
    ensures
        r == lang_extensions(lang).contains(ext@),
{
    let exts = lang.extensions();
    let e = chars_of(ext);
    let ghost ev = exts@.map_values(|s: &str| s@);
    let mut i: usize = 0;
    while i < exts.len()
        invariant
            i <= exts.len(),
            ev == exts@.map_values(|s: &str| s@),
            ev == lang_extensions(lang),
            e@ == ext@,
            forall|k: int| 0 <= k < i ==> ev[k] != ext@,
        decreases exts.len() - i,
    {
        let c = chars_of(exts[i]);
        if chars_eq(&c, &e) {
            assert(ev[i as int] == ext@);
            return true;
        }
        i += 1;
    }
    false
}

/// The name of capture `index` among the query's capture names, or
/// `unknown`.
pub fn capture_name<'a>(names: &Vec<&'a str>, index: usize) -> (r: &'a str)
    ensures
        index < names.len() ==> r == names@[index as int],
        index >= names.len() ==> r@ == "unknown"@,
{
    if index < names.len() {
        names[index]
    } else {
        "unknown"
    }
}

/// The captures of a query, up to `MAX_MATCHES`.
pub struct QueryResults {
    results: Vec<QueryMatch>,
}

impl QueryResults {
    pub closed spec fn spec_len(&self) -> nat {
        self.results@.len()
    }

    pub closed spec fn spec_results(&self) -> Seq<QueryMatch> {
        self.results@
    }

    /// No captures yet.
    pub fn new() -> (r: Self)
        ensures
            r.spec_len() == 0,
    {
        QueryResults { results: Vec::new() }
    }

    /// Records a capture, named `@<capture name>`, with 1-based lines; tells
    /// whether the limit is reached, after which the query stops.
    pub fn push(&mut self, cap_name: &str, text: String, file: String, start_row: usize, end_row: usize) -> (full: bool)
        requires
            old(self).spec_len() < MAX_MATCHES,
            start_row < usize::MAX,
            end_row < usize::MAX,
        ensures
            final(self).spec_len() == old(self).spec_len() + 1,
            final(self).spec_results() == old(self).spec_results().push(final(self).spec_results().last()),
            final(self).spec_results().last().capture@ == seq!['@'] + cap_name@,
            final(self).spec_results().last().text == text,
            final(self).spec_results().last().file == file,
            final(self).spec_results().last().start_line == start_row + 1,
            final(self).spec_results().last().end_line == end_row + 1,
            full == (final(self).spec_len() >= MAX_MATCHES),
    {
        let mut capture = String::new();
        crate::text::push_char(&mut capture, '@');
        crate::text::push_str(&mut capture, cap_name);
        self.results.push(QueryMatch { capture, text, file, start_line: start_row + 1, end_line: end_row + 1 });
        self.results.len() >= MAX_MATCHES
    }

    /// The captures recorded.
    pub fn into_results(self) -> (r: Vec<QueryMatch>)
        ensures
            r@ == self.spec_results(),
    {
        self.results
    }
}

// ---------------------------------------------------------------------------
// The symbol index
// ---------------------------------------------------------------------------

/// The project root: the first directory, walking up from `base`, that
/// holds `.git`; `path` itself when none does. `ancestors` lists `base` (the
/// path, or its directory when it is a file) and its parents in order,
/// `has_git` whether each holds `.git`.
pub open spec fn project_root(path: Seq<char>, ancestors: Seq<Seq<char>>, has_git: Seq<bool>, i: int) -> Seq<char>
    decreases ancestors.len() - i,
{
    if i < 0 || i >= ancestors.len() || i >= has_git.len() {
        path
    } else if has_git[i] {
        ancestors[i]
    } else {
        project_root(path, ancestors, has_git, i + 1)
    }
}

/// Finds the project root (`project_root`).
pub fn find_project_root(path: &str, ancestors: &Vec<String>, has_git: &Vec<bool>) -> (r: String)
    ensures
        r@ == project_root(path@, ancestors@.map_values(|a: String| a@), has_git@, 0),
{
    let ghost av = ancestors@.map_values(|a: String| a@);
    let mut i: usize = 0;
    while i < ancestors.len() && i < has_git.len()
        invariant
            i <= ancestors.len(),
            av == ancestors@.map_values(|a: String| a@),
            project_root(path@, av, has_git@, 0) == project_root(path@, av, has_git@, i as int),
        decreases ancestors.len() - i,
    {
        if has_git[i] {
            return ancestors[i].clone();
        }
        i += 1;
    }
    path.to_string()
}

/// What a scan does with one file.
#[derive(Debug, Clone, Copy, PartialEq, Eq)]
pub enum FileScan {
    /// Not a file of a language that is indexed.
    Skip,
    /// Indexed and unchanged.
    Fresh(Lang),
    /// Indexed and new or changed: parse it again.
    Stale(Lang),
}

/// What a scan does with a file: skipped unless its extension names a language
/// (the filter's, when given); fresh when its modification time is the
/// cached one, stale otherwise.
pub open spec fn scan_outcome(ext: Seq<char>, filter: Option<Lang>, cached: Option<(i64, i64)>, actual: (i64, i64)) -> FileScan {
    match lang_of_extension(ext) {
        None => FileScan::Skip,
        Some(l) => if filter matches Some(f) && f != l {
            FileScan::Skip
        } else if cached == Some(actual) {
            FileScan::Fresh(l)
        } else {
            FileScan::Stale(l)
        },
    }
}

/// Decides what a scan does with one file (`scan_outcome`).
pub fn classify_file(ext: &str, lang_filter: Option<Lang>, cached: Option<(i64, i64)>, actual: (i64, i64)) -> (r: FileScan)
    ensures
        r == scan_outcome(ext@, lang_filter, cached, actual),
{
    match Lang::from_extension(ext) {
        None => FileScan::Skip,
        Some(l) => {
            let filtered = match lang_filter {
                Some(f) => f != l,
                None => false,
            };
            if filtered {
                FileScan::Skip
            } else {
                let fresh = match cached {
                    Some((s, n)) => s == actual.0 && n == actual.1,
                    None => false,
                };
                if fresh {
                    FileScan::Fresh(l)
                } else {
                    FileScan::Stale(l)
                }
            }
        },
    }
}

/// The modification time stored for a path: the first entry for it.
pub open spec fn cached_time(cached: Seq<(Seq<char>, (i64, i64))>, path: Seq<char>) -> Option<(i64, i64)>
    decreases cached.len(),
{
    if cached.len() == 0 {
        None
    } else if cached[0].0 == path {
        Some(cached[0].1)
    } else {
        cached_time(cached.drop_first(), path)
    }
}

/// What the scan does with file `k` of the walk (path, extension, time).
pub open spec fn file_outcome(
    files: Seq<(Seq<char>, Seq<char>, (i64, i64))>,
    k: int,
    filter: Option<Lang>,
    cached: Seq<(Seq<char>, (i64, i64))>,
) -> FileScan {
    scan_outcome(files[k].1, filter, cached_time(cached, files[k].0), files[k].2)
}

/// The files to parse again, in walk order: each one's position in the walk
/// and its language.
pub open spec fn stale_files(
    files: Seq<(Seq<char>, Seq<char>, (i64, i64))>,
    filter: Option<Lang>,
    cached: Seq<(Seq<char>, (i64, i64))>,
    n: int,
) -> Seq<(usize, Lang)>
    decreases n,
{
    if n <= 0 {
        Seq::empty()
    } else {
        let rest = stale_files(files, filter, cached, n - 1);
        match file_outcome(files, n - 1, filter, cached) {
            FileScan::Stale(l) => rest.push(((n - 1) as usize, l)),
            _ => rest,
        }
    }
}

/// The paths of every indexed file the walk found, in walk order.
pub open spec fn existing_files(
    files: Seq<(Seq<char>, Seq<char>, (i64, i64))>,
    filter: Option<Lang>,
    cached: Seq<(Seq<char>, (i64, i64))>,
    n: int,
) -> Seq<Seq<char>>
    decreases n,
{
    if n <= 0 {
        Seq::empty()
    } else {
        let rest = existing_files(files, filter, cached, n - 1);
        match file_outcome(files, n - 1, filter, cached) {
            FileScan::Skip => rest,
            _ => rest.push(files[n - 1].0),
        }
    }
}

pub open spec fn walk_view(v: Seq<(String, String, (i64, i64))>) -> Seq<(Seq<char>, Seq<char>, (i64, i64))> {
    v.map_values(|f: (String, String, (i64, i64))| (f.0@, f.1@, f.2))
}

pub open spec fn cached_view(v: Seq<(String, (i64, i64))>) -> Seq<(Seq<char>, (i64, i64))> {
    v.map_values(|c: (String, (i64, i64))| (c.0@, c.1))
}

fn lookup_cached(cached: &Vec<(String, (i64, i64))>, path: &str) -> (r: Option<(i64, i64)>)
    ensures
        r == cached_time(cached_view(cached@), path@),
{
    let ghost cv = cached_view(cached@);
    let p = chars_of(path);
    let mut i: usize = 0;
    assert(cv.skip(0) =~= cv);
    while i < cached.len()
        invariant
            i <= cached.len(),
            cv == cached_view(cached@),
            p@ == path@,
            cached_time(cv, path@) == cached_time(cv.skip(i as int), path@),
        decreases cached.len() - i,
    {
        let ghost rest = cv.skip(i as int);
        assert(rest[0] == cv[i as int]);
        assert(rest.drop_first() =~= cv.skip(i + 1));
        let c = chars_of(cached[i].0.as_str());
        if chars_eq(&c, &p) {
            return Some(cached[i].1);
        }
        i += 1;
    }
    assert(cv.skip(i as int) =~= Seq::<(Seq<char>, (i64, i64))>::empty());
    None
}

/// Sorts the files a walk found (path, extension, modification time): the
/// files to parse again (`stale_files`, by position in the walk) and the
/// paths of every indexed file (`existing_files`).
pub fn scan_walk(
    files: &Vec<(String, String, (i64, i64))>,
    lang_filter: Option<Lang>,
    cached: &Vec<(String, (i64, i64))>,
) -> (r: (Vec<(usize, Lang)>, Vec<String>))
    ensures
        r.0@ == stale_files(walk_view(files@), lang_filter, cached_view(cached@), files.len() as int),
        r.1@.map_values(|p: String| p@) == existing_files(
            walk_view(files@),
            lang_filter,
            cached_view(cached@),
            files.len() as int,
        ),
{
    let ghost fv = walk_view(files@);
    let ghost cv = cached_view(cached@);
    let mut stale: Vec<(usize, Lang)> = Vec::new();
    let mut existing: Vec<String> = Vec::new();
    let mut k: usize = 0;
    while k < files.len()
        invariant
            k <= files.len(),
            fv == walk_view(files@),
            cv == cached_view(cached@),
            stale@ == stale_files(fv, lang_filter, cv, k as int),
            existing@.map_values(|p: String| p@) == existing_files(fv, lang_filter, cv, k as int),
        decreases files.len() - k,
    {
        let c = lookup_cached(cached, files[k].0.as_str());
        let outcome = classify_file(files[k].1.as_str(), lang_filter, c, files[k].2);
        assert(outcome == file_outcome(fv, k as int, lang_filter, cv));
        let ghost before = existing@;
        match outcome {
            FileScan::Skip => {},
            FileScan::Fresh(_) => {
                existing.push(files[k].0.clone());
                assert(existing@.map_values(|p: String| p@) =~= before.map_values(|p: String| p@).push(fv[k as int].0));
            },
            FileScan::Stale(l) => {
                existing.push(files[k].0.clone());
                assert(existing@.map_values(|p: String| p@) =~= before.map_values(|p: String| p@).push(fv[k as int].0));
                stale.push((k, l));
            },
        }
        k += 1;
    }
    (stale, existing)
}

/// The indexed paths that no longer exist, in order.
pub open spec fn paths_to_prune(indexed: Seq<Seq<char>>, existing: Seq<Seq<char>>) -> Seq<Seq<char>> {
    indexed.filter(|p: Seq<char>| !existing.contains(p))
}

/// Lists the indexed paths to remove (`paths_to_prune`).
pub fn files_to_prune(indexed: &Vec<String>, existing: &Vec<String>) -> (r: Vec<String>)
    ensures
        r@.map_values(|p: String| p@) == paths_to_prune(
            indexed@.map_values(|p: String| p@),
            existing@.map_values(|p: String| p@),
        ),
{
    let ghost iv = indexed@.map_values(|p: String| p@);
    let ghost ev = existing@.map_values(|p: String| p@);
    let mut out: Vec<String> = Vec::new();
    let mut i: usize = 0;
    assert(iv.take(0).filter(|p: Seq<char>| !ev.contains(p)) =~= Seq::<Seq<char>>::empty());
    while i < indexed.len()
        invariant
            i <= indexed.len(),
            iv == indexed@.map_values(|p: String| p@),
            ev == existing@.map_values(|p: String| p@),
            out@.map_values(|p: String| p@) == iv.take(i as int).filter(|p: Seq<char>| !ev.contains(p)),
        decreases indexed.len() - i,
    {
        let p = chars_of(indexed[i].as_str());
        let mut found = false;
        let mut j: usize = 0;
        while j < existing.len()
            invariant
                j <= existing.len(),
                ev == existing@.map_values(|p: String| p@),
                p@ == iv[i as int],
                i < iv.len(),
                found == (exists|k: int| 0 <= k < j && ev[k] == p@),
            decreases existing.len() - j,
        {
            let q = chars_of(existing[j].as_str());
            if chars_eq(&p, &q) {
                assert(ev[j as int] == p@);
                found = true;
            }
            j += 1;
        }
        proof {
            if found {
                let k = choose|k: int| 0 <= k < existing.len() && ev[k] == p@;
                assert(ev.contains(p@));
            } else {
                assert(!ev.contains(p@));
            }
            let t = iv.take(i + 1);
            assert(t.drop_last() =~= iv.take(i as int));
            assert(t.last() == iv[i as int]);
            assert(t.filter(|p: Seq<char>| !ev.contains(p)) == (if !ev.contains(iv[i as int]) {
                iv.take(i as int).filter(|p: Seq<char>| !ev.contains(p)).push(iv[i as int])
            } else {
                iv.take(i as int).filter(|p: Seq<char>| !ev.contains(p))
            })) by {
                reveal(Seq::filter);
            }
        }
        if !found {
            let ghost prev = out@;
            let s = indexed[i].clone();
            out.push(s);
            assert(out@.map_values(|p: String| p@) =~= prev.map_values(|p: String| p@).push(iv[i as int]));
        }
        i += 1;
    }
    assert(iv.take(indexed.len() as int) =~= iv);
    out
}

/// A symbol read back from the index: its kind from the stored name, its
/// line converted to `usize` as `as` converts.
pub fn symbol_from_row(name: String, kind: &str, file: String, line: i64) -> (r: Symbol)
    ensures
        r.name == name,
        r.kind == kind_of_prefix(kind@),
        r.file == file,
        r.line == line as usize,
{
    Symbol { name, kind: SymbolKind::from_str(kind), file, line: line as usize }
}

/// A modification time as stored: seconds and nanoseconds since the epoch,
/// the seconds as `as i64` converts them.
pub fn stored_mtime(secs: u64, nanos: u32) -> (r: (i64, i64))
    ensures
        r == (secs as i64, nanos as i64),
{
    (secs as i64, nanos as i64)
}

proof fn lemma_before_dot(w: Seq<char>, rest: Seq<char>)
    requires
        forall|i: int| 0 <= i < w.len() ==> w[i] != '.',
        rest.len() > 0,
        rest[0] == '.',
    ensures
        before_dot(w + rest) == w,
    decreases w.len(),
{
    if w.len() == 0 {
        assert(w + rest =~= rest);
    } else {
        assert((w + rest).drop_first() =~= w.drop_first() + rest);
        lemma_before_dot(w.drop_first(), rest);
        assert(seq![w[0]] + w.drop_first() =~= w);
    }
}

/// The kind a capture `@<word>.name` stands for is the kind named `<word>`.
proof fn lemma_capture_kind(word: Seq<char>, cap: Seq<char>, k: SymbolKind)
    requires
        word == kind_name(k),
        word.len() > 0,
        word[0] != '@',
        forall|i: int| 0 <= i < word.len() ==> word[i] != '.',
        cap == seq!['@'] + word + seq!['.', 'n', 'a', 'm', 'e'],
    ensures
        kind_of_prefix(before_dot(strip_ats(cap))) == k,
{
    let tail = word + seq!['.', 'n', 'a', 'm', 'e'];
    assert(cap.drop_first() =~= tail);
    assert(tail[0] == word[0]);
    assert(strip_ats(tail) == tail);
    assert(strip_ats(cap) == tail);
    lemma_before_dot(word, seq!['.', 'n', 'a', 'm', 'e']);
    law_kind_round_trip(k);
}

proof fn lemma_capture_kinds()
    ensures
        kind_of_prefix(before_dot(strip_ats("@fn.name"@))) == SymbolKind::Fn,
        kind_of_prefix(before_dot(strip_ats("@struct.name"@))) == SymbolKind::Struct,
        kind_of_prefix(before_dot(strip_ats("@enum.name"@))) == SymbolKind::Enum,
        kind_of_prefix(before_dot(strip_ats("@trait.name"@))) == SymbolKind::Trait,
        kind_of_prefix(before_dot(strip_ats("@mod.name"@))) == SymbolKind::Mod,
        kind_of_prefix(before_dot(strip_ats("@type.name"@))) == SymbolKind::Type,
        kind_of_prefix(before_dot(strip_ats("@const.name"@))) == SymbolKind::Const,
        kind_of_prefix(before_dot(strip_ats("@static.name"@))) == SymbolKind::Static,
        kind_of_prefix(before_dot(strip_ats("@macro.name"@))) == SymbolKind::Macro,
        kind_of_prefix(before_dot(strip_ats("@class.name"@))) == SymbolKind::Class,
        kind_of_prefix(before_dot(strip_ats("@method.name"@))) == SymbolKind::Method,
        kind_of_prefix(before_dot(strip_ats("@interface.name"@))) == SymbolKind::Interface,
        kind_of_prefix(before_dot(strip_ats("@namespace.name"@))) == SymbolKind::Namespace,
{
    reveal_strlit("fn");
    reveal_strlit("@fn.name");
    assert("@fn.name"@ =~= seq!['@'] + "fn"@ + seq!['.', 'n', 'a', 'm', 'e']);
    lemma_capture_kind("fn"@, "@fn.name"@, SymbolKind::Fn);
    reveal_strlit("struct");
    reveal_strlit("@struct.name");
    assert("@struct.name"@ =~= seq!['@'] + "struct"@ + seq!['.', 'n', 'a', 'm', 'e']);
    lemma_capture_kind("struct"@, "@struct.name"@, SymbolKind::Struct);
    reveal_strlit("enum");
    reveal_strlit("@enum.name");
    assert("@enum.name"@ =~= seq!['@'] + "enum"@ + seq!['.', 'n', 'a', 'm', 'e']);
    lemma_capture_kind("enum"@, "@enum.name"@, SymbolKind::Enum);
    reveal_strlit("trait");
    reveal_strlit("@trait.name");
    assert("@trait.name"@ =~= seq!['@'] + "trait"@ + seq!['.', 'n', 'a', 'm', 'e']);
    lemma_capture_kind("trait"@, "@trait.name"@, SymbolKind::Trait);
    reveal_strlit("mod");
    reveal_strlit("@mod.name");
    assert("@mod.name"@ =~= seq!['@'] + "mod"@ + seq!['.', 'n', 'a', 'm', 'e']);
    lemma_capture_kind("mod"@, "@mod.name"@, SymbolKind::Mod);
    reveal_strlit("type");
    reveal_strlit("@type.name");
    assert("@type.name"@ =~= seq!['@'] + "type"@ + seq!['.', 'n', 'a', 'm', 'e']);
    lemma_capture_kind("type"@, "@type.name"@, SymbolKind::Type);
    reveal_strlit("const");
    reveal_strlit("@const.name");
    assert("@const.name"@ =~= seq!['@'] + "const"@ + seq!['.', 'n', 'a', 'm', 'e']);
    lemma_capture_kind("const"@, "@const.name"@, SymbolKind::Const);
    reveal_strlit("static");
    reveal_strlit("@static.name");
    assert("@static.name"@ =~= seq!['@'] + "static"@ + seq!['.', 'n', 'a', 'm', 'e']);
    lemma_capture_kind("static"@, "@static.name"@, SymbolKind::Static);
    reveal_strlit("macro");
    reveal_strlit("@macro.name");
    assert("@macro.name"@ =~= seq!['@'] + "macro"@ + seq!['.', 'n', 'a', 'm', 'e']);
    lemma_capture_kind("macro"@, "@macro.name"@, SymbolKind::Macro);
    reveal_strlit("class");
    reveal_strlit("@class.name");
    assert("@class.name"@ =~= seq!['@'] + "class"@ + seq!['.', 'n', 'a', 'm', 'e']);
    lemma_capture_kind("class"@, "@class.name"@, SymbolKind::Class);
    reveal_strlit("method");
    reveal_strlit("@method.name");
    assert("@method.name"@ =~= seq!['@'] + "method"@ + seq!['.', 'n', 'a', 'm', 'e']);
    lemma_capture_kind("method"@, "@method.name"@, SymbolKind::Method);
    reveal_strlit("interface");
    reveal_strlit("@interface.name");
    assert("@interface.name"@ =~= seq!['@'] + "interface"@ + seq!['.', 'n', 'a', 'm', 'e']);
    lemma_capture_kind("interface"@, "@interface.name"@, SymbolKind::Interface);
    reveal_strlit("namespace");
    reveal_strlit("@namespace.name");
    assert("@namespace.name"@ =~= seq!['@'] + "namespace"@ + seq!['.', 'n', 'a', 'm', 'e']);
    lemma_capture_kind("namespace"@, "@namespace.name"@, SymbolKind::Namespace);
}

/// `pattern` occurs in `query` starting at `at`.
pub open spec fn pattern_at(query: Seq<char>, pattern: Seq<char>, at: int) -> bool {
    0 <= at && at + pattern.len() <= query.len() && query.subrange(at, at + pattern.len()) == pattern
}

/// The Go symbol query finds functions, methods and types: it captures the
/// name of every function declaration as a function, of every method
/// declaration `func (r T) M(...)` as a method, and of every type spec as a
/// type.
pub proof fn law_go_symbols_cover_methods()
    ensures
        exists|at: int| pattern_at(symbols_query_text(Lang::Go), "(function_declaration name: (identifier) @fn.name)"@, at),
        exists|at: int| pattern_at(symbols_query_text(Lang::Go), "(method_declaration name: (field_identifier) @method.name)"@, at),
        exists|at: int| pattern_at(symbols_query_text(Lang::Go), "(type_spec name: (type_identifier) @type.name)"@, at),
        kind_of_prefix(before_dot(strip_ats("@fn.name"@))) == SymbolKind::Fn,
        kind_of_prefix(before_dot(strip_ats("@method.name"@))) == SymbolKind::Method,
        kind_of_prefix(before_dot(strip_ats("@type.name"@))) == SymbolKind::Type,
{
    reveal_strlit("(function_declaration name: (identifier) @fn.name)
             (method_declaration name: (field_identifier) @method.name)
             (type_spec name: (type_identifier) @type.name)");
    reveal_strlit("(function_declaration name: (identifier) @fn.name)");
    reveal_strlit("(method_declaration name: (field_identifier) @method.name)");
    reveal_strlit("(type_spec name: (type_identifier) @type.name)");
    let q = symbols_query_text(Lang::Go);
    assert(q.subrange(0, 50) =~= "(function_declaration name: (identifier) @fn.name)"@);
    assert(pattern_at(q, "(function_declaration name: (identifier) @fn.name)"@, 0));
    assert(q.subrange(64, 122) =~= "(method_declaration name: (field_identifier) @method.name)"@);
    assert(pattern_at(q, "(method_declaration name: (field_identifier) @method.name)"@, 64));
    assert(q.subrange(136, 182) =~= "(type_spec name: (type_identifier) @type.name)"@);
    assert(pattern_at(q, "(type_spec name: (type_identifier) @type.name)"@, 136));
    lemma_capture_kinds();
}

/// The Rust symbol query holds each of its capture patterns, every
/// captured name standing for a symbol of the kind its capture says
/// (fn, struct, enum, trait, mod, type, const, static, macro).
pub proof fn law_rust_symbol_patterns()
    ensures
        exists|at: int| pattern_at(symbols_query_text(Lang::Rust), "(function_item name: (identifier) @fn.name)"@, at),
        exists|at: int| pattern_at(symbols_query_text(Lang::Rust), "(struct_item name: (type_identifier) @struct.name)"@, at),
        exists|at: int| pattern_at(symbols_query_text(Lang::Rust), "(enum_item name: (type_identifier) @enum.name)"@, at),
        exists|at: int| pattern_at(symbols_query_text(Lang::Rust), "(trait_item name: (type_identifier) @trait.name)"@, at),
        exists|at: int| pattern_at(symbols_query_text(Lang::Rust), "(mod_item name: (identifier) @mod.name)"@, at),
        exists|at: int| pattern_at(symbols_query_text(Lang::Rust), "(type_item name: (type_identifier) @type.name)"@, at),
        exists|at: int| pattern_at(symbols_query_text(Lang::Rust), "(const_item name: (identifier) @const.name)"@, at),
        exists|at: int| pattern_at(symbols_query_text(Lang::Rust), "(static_item name: (identifier) @static.name)"@, at),
        exists|at: int| pattern_at(symbols_query_text(Lang::Rust), "(macro_definition name: (identifier) @macro.name)"@, at),
        kind_of_prefix(before_dot(strip_ats("@fn.name"@))) == SymbolKind::Fn,
        kind_of_prefix(before_dot(strip_ats("@struct.name"@))) == SymbolKind::Struct,
        kind_of_prefix(before_dot(strip_ats("@enum.name"@))) == SymbolKind::Enum,
        kind_of_prefix(before_dot(strip_ats("@trait.name"@))) == SymbolKind::Trait,
        kind_of_prefix(before_dot(strip_ats("@mod.name"@))) == SymbolKind::Mod,
        kind_of_prefix(before_dot(strip_ats("@type.name"@))) == SymbolKind::Type,
        kind_of_prefix(before_dot(strip_ats("@const.name"@))) == SymbolKind::Const,
        kind_of_prefix(before_dot(strip_ats("@static.name"@))) == SymbolKind::Static,
        kind_of_prefix(before_dot(strip_ats("@macro.name"@))) == SymbolKind::Macro,
{
    reveal_strlit("(function_item name: (identifier) @fn.name)
             (struct_item name: (type_identifier) @struct.name)
             (enum_item name: (type_identifier) @enum.name)
             (trait_item name: (type_identifier) @trait.name)
             (mod_item name: (identifier) @mod.name)
             (type_item name: (type_identifier) @type.name)
             (const_item name: (identifier) @const.name)
             (static_item name: (identifier) @static.name)
             (macro_definition name: (identifier) @macro.name)");
    let q = symbols_query_text(Lang::Rust);
    reveal_strlit("(function_item name: (identifier) @fn.name)");
    assert(q.subrange(0, 43) =~= "(function_item name: (identifier) @fn.name)"@);
    assert(pattern_at(q, "(function_item name: (identifier) @fn.name)"@, 0));
    reveal_strlit("(struct_item name: (type_identifier) @struct.name)");
    assert(q.subrange(57, 107) =~= "(struct_item name: (type_identifier) @struct.name)"@);
    assert(pattern_at(q, "(struct_item name: (type_identifier) @struct.name)"@, 57));
    reveal_strlit("(enum_item name: (type_identifier) @enum.name)");
    assert(q.subrange(121, 167) =~= "(enum_item name: (type_identifier) @enum.name)"@);
    assert(pattern_at(q, "(enum_item name: (type_identifier) @enum.name)"@, 121));
    reveal_strlit("(trait_item name: (type_identifier) @trait.name)");
    assert(q.subrange(181, 229) =~= "(trait_item name: (type_identifier) @trait.name)"@);
    assert(pattern_at(q, "(trait_item name: (type_identifier) @trait.name)"@, 181));
    reveal_strlit("(mod_item name: (identifier) @mod.name)");
    assert(q.subrange(243, 282) =~= "(mod_item name: (identifier) @mod.name)"@);
    assert(pattern_at(q, "(mod_item name: (identifier) @mod.name)"@, 243));
    reveal_strlit("(type_item name: (type_identifier) @type.name)");
    assert(q.subrange(296, 342) =~= "(type_item name: (type_identifier) @type.name)"@);
    assert(pattern_at(q, "(type_item name: (type_identifier) @type.name)"@, 296));
    reveal_strlit("(const_item name: (identifier) @const.name)");
    assert(q.subrange(356, 399) =~= "(const_item name: (identifier) @const.name)"@);
    assert(pattern_at(q, "(const_item name: (identifier) @const.name)"@, 356));
    reveal_strlit("(static_item name: (identifier) @static.name)");
    assert(q.subrange(413, 458) =~= "(static_item name: (identifier) @static.name)"@);
    assert(pattern_at(q, "(static_item name: (identifier) @static.name)"@, 413));
    reveal_strlit("(macro_definition name: (identifier) @macro.name)");
    assert(q.subrange(472, 521) =~= "(macro_definition name: (identifier) @macro.name)"@);
    assert(pattern_at(q, "(macro_definition name: (identifier) @macro.name)"@, 472));
    lemma_capture_kinds();
}

/// The Python symbol query holds each of its capture patterns, every
/// captured name standing for a symbol of the kind its capture says
/// (fn, class).
pub proof fn law_python_symbol_patterns()
    ensures
        exists|at: int| pattern_at(symbols_query_text(Lang::Python), "(function_definition name: (identifier) @fn.name)"@, at),
        exists|at: int| pattern_at(symbols_query_text(Lang::Python), "(class_definition name: (identifier) @class.name)"@, at),
        kind_of_prefix(before_dot(strip_ats("@fn.name"@))) == SymbolKind::Fn,
        kind_of_prefix(before_dot(strip_ats("@class.name"@))) == SymbolKind::Class,
{
    reveal_strlit("(function_definition name: (identifier) @fn.name)
             (class_definition name: (identifier) @class.name)");
    let q = symbols_query_text(Lang::Python);
    reveal_strlit("(function_definition name: (identifier) @fn.name)");
    assert(q.subrange(0, 49) =~= "(function_definition name: (identifier) @fn.name)"@);
    assert(pattern_at(q, "(function_definition name: (identifier) @fn.name)"@, 0));
    reveal_strlit("(class_definition name: (identifier) @class.name)");
    assert(q.subrange(63, 112) =~= "(class_definition name: (identifier) @class.name)"@);
    assert(pattern_at(q, "(class_definition name: (identifier) @class.name)"@, 63));
    lemma_capture_kinds();
}

/// The JavaScript symbol query holds each of its capture patterns, every
/// captured name standing for a symbol of the kind its capture says
/// (fn, class, method).
pub proof fn law_javascript_symbol_patterns()
    ensures
        exists|at: int| pattern_at(symbols_query_text(Lang::JavaScript), "(function_declaration name: (identifier) @fn.name)"@, at),
        exists|at: int| pattern_at(symbols_query_text(Lang::JavaScript), "(class_declaration name: (identifier) @class.name)"@, at),
        exists|at: int| pattern_at(symbols_query_text(Lang::JavaScript), "(method_definition name: (property_identifier) @method.name)"@, at),
        kind_of_prefix(before_dot(strip_ats("@fn.name"@))) == SymbolKind::Fn,
        kind_of_prefix(before_dot(strip_ats("@class.name"@))) == SymbolKind::Class,
        kind_of_prefix(before_dot(strip_ats("@method.name"@))) == SymbolKind::Method,
{
    reveal_strlit("(function_declaration name: (identifier) @fn.name)
             (class_declaration name: (identifier) @class.name)
             (method_definition name: (property_identifier) @method.name)");
    let q = symbols_query_text(Lang::JavaScript);
    reveal_strlit("(function_declaration name: (identifier) @fn.name)");
    assert(q.subrange(0, 50) =~= "(function_declaration name: (identifier) @fn.name)"@);
    assert(pattern_at(q, "(function_declaration name: (identifier) @fn.name)"@, 0));
    reveal_strlit("(class_declaration name: (identifier) @class.name)");
    assert(q.subrange(64, 114) =~= "(class_declaration name: (identifier) @class.name)"@);
    assert(pattern_at(q, "(class_declaration name: (identifier) @class.name)"@, 64));
    reveal_strlit("(method_definition name: (property_identifier) @method.name)");
    assert(q.subrange(128, 188) =~= "(method_definition name: (property_identifier) @method.name)"@);
    assert(pattern_at(q, "(method_definition name: (property_identifier) @method.name)"@, 128));
    lemma_capture_kinds();
}

/// The TypeScript symbol query holds each of its capture patterns, every
/// captured name standing for a symbol of the kind its capture says
/// (fn, enum, type, class, method, interface).
pub proof fn law_typescript_symbol_patterns()
    ensures
        exists|at: int| pattern_at(symbols_query_text(Lang::TypeScript), "(function_declaration name: (identifier) @fn.name)"@, at),
        exists|at: int| pattern_at(symbols_query_text(Lang::TypeScript), "(class_declaration name: (type_identifier) @class.name)"@, at),
        exists|at: int| pattern_at(symbols_query_text(Lang::TypeScript), "(method_definition name: (property_identifier) @method.name)"@, at),
        exists|at: int| pattern_at(symbols_query_text(Lang::TypeScript), "(interface_declaration name: (type_identifier) @interface.name)"@, at),
        exists|at: int| pattern_at(symbols_query_text(Lang::TypeScript), "(type_alias_declaration name: (type_identifier) @type.name)"@, at),
        exists|at: int| pattern_at(symbols_query_text(Lang::TypeScript), "(enum_declaration name: (identifier) @enum.name)"@, at),
        kind_of_prefix(before_dot(strip_ats("@fn.name"@))) == SymbolKind::Fn,
        kind_of_prefix(before_dot(strip_ats("@enum.name"@))) == SymbolKind::Enum,
        kind_of_prefix(before_dot(strip_ats("@type.name"@))) == SymbolKind::Type,
        kind_of_prefix(before_dot(strip_ats("@class.name"@))) == SymbolKind::Class,
        kind_of_prefix(before_dot(strip_ats("@method.name"@))) == SymbolKind::Method,
        kind_of_prefix(before_dot(strip_ats("@interface.name"@))) == SymbolKind::Interface,
{
    reveal_strlit("(function_declaration name: (identifier) @fn.name)
             (class_declaration name: (type_identifier) @class.name)
             (method_definition name: (property_identifier) @method.name)
             (interface_declaration name: (type_identifier) @interface.name)
             (type_alias_declaration name: (type_identifier) @type.name)
             (enum_declaration name: (identifier) @enum.name)");
    let q = symbols_query_text(Lang::TypeScript);
    reveal_strlit("(function_declaration name: (identifier) @fn.name)");
    assert(q.subrange(0, 50) =~= "(function_declaration name: (identifier) @fn.name)"@);
    assert(pattern_at(q, "(function_declaration name: (identifier) @fn.name)"@, 0));
    reveal_strlit("(class_declaration name: (type_identifier) @class.name)");
    assert(q.subrange(64, 119) =~= "(class_declaration name: (type_identifier) @class.name)"@);
    assert(pattern_at(q, "(class_declaration name: (type_identifier) @class.name)"@, 64));
    reveal_strlit("(method_definition name: (property_identifier) @method.name)");
    assert(q.subrange(133, 193) =~= "(method_definition name: (property_identifier) @method.name)"@);
    assert(pattern_at(q, "(method_definition name: (property_identifier) @method.name)"@, 133));
    reveal_strlit("(interface_declaration name: (type_identifier) @interface.name)");
    assert(q.subrange(207, 270) =~= "(interface_declaration name: (type_identifier) @interface.name)"@);
    assert(pattern_at(q, "(interface_declaration name: (type_identifier) @interface.name)"@, 207));
    reveal_strlit("(type_alias_declaration name: (type_identifier) @type.name)");
    assert(q.subrange(284, 343) =~= "(type_alias_declaration name: (type_identifier) @type.name)"@);
    assert(pattern_at(q, "(type_alias_declaration name: (type_identifier) @type.name)"@, 284));
    reveal_strlit("(enum_declaration name: (identifier) @enum.name)");
    assert(q.subrange(357, 405) =~= "(enum_declaration name: (identifier) @enum.name)"@);
    assert(pattern_at(q, "(enum_declaration name: (identifier) @enum.name)"@, 357));
    lemma_capture_kinds();
}

/// The C symbol query holds each of its capture patterns, every
/// captured name standing for a symbol of the kind its capture says
/// (fn, struct, enum).
pub proof fn law_c_symbol_patterns()
    ensures
        exists|at: int| pattern_at(symbols_query_text(Lang::C), "(function_definition\n               declarator: (function_declarator\n                 declarator: (identifier) @fn.name))"@, at),
        exists|at: int| pattern_at(symbols_query_text(Lang::C), "(struct_specifier name: (type_identifier) @struct.name)"@, at),
        exists|at: int| pattern_at(symbols_query_text(Lang::C), "(enum_specifier name: (type_identifier) @enum.name)"@, at),
        kind_of_prefix(before_dot(strip_ats("@fn.name"@))) == SymbolKind::Fn,
        kind_of_prefix(before_dot(strip_ats("@struct.name"@))) == SymbolKind::Struct,
        kind_of_prefix(before_dot(strip_ats("@enum.name"@))) == SymbolKind::Enum,
{
    reveal_strlit("(function_definition
               declarator: (function_declarator
                 declarator: (identifier) @fn.name))
             (struct_specifier name: (type_identifier) @struct.name)
             (enum_specifier name: (type_identifier) @enum.name)");
    let q = symbols_query_text(Lang::C);
    reveal_strlit("(function_definition\n               declarator: (function_declarator\n                 declarator: (identifier) @fn.name))");
    assert(q.subrange(0, 121) =~= "(function_definition\n               declarator: (function_declarator\n                 declarator: (identifier) @fn.name))"@);
    assert(pattern_at(q, "(function_definition\n               declarator: (function_declarator\n                 declarator: (identifier) @fn.name))"@, 0));
    reveal_strlit("(struct_specifier name: (type_identifier) @struct.name)");
    assert(q.subrange(135, 190) =~= "(struct_specifier name: (type_identifier) @struct.name)"@);
    assert(pattern_at(q, "(struct_specifier name: (type_identifier) @struct.name)"@, 135));
    reveal_strlit("(enum_specifier name: (type_identifier) @enum.name)");
    assert(q.subrange(204, 255) =~= "(enum_specifier name: (type_identifier) @enum.name)"@);
    assert(pattern_at(q, "(enum_specifier name: (type_identifier) @enum.name)"@, 204));
    lemma_capture_kinds();
}

/// The C++ symbol query holds each of its capture patterns, every
/// captured name standing for a symbol of the kind its capture says
/// (fn, struct, enum, class, namespace).
pub proof fn law_cpp_symbol_patterns()
    ensures
        exists|at: int| pattern_at(symbols_query_text(Lang::Cpp), "(function_definition\n               declarator: (function_declarator\n                 declarator: [(identifier) @fn.name\n                              (qualified_identifier) @fn.name]))"@, at),
        exists|at: int| pattern_at(symbols_query_text(Lang::Cpp), "(class_specifier name: (type_identifier) @class.name)"@, at),
        exists|at: int| pattern_at(symbols_query_text(Lang::Cpp), "(struct_specifier name: (type_identifier) @struct.name)"@, at),
        exists|at: int| pattern_at(symbols_query_text(Lang::Cpp), "(enum_specifier name: (type_identifier) @enum.name)"@, at),
        exists|at: int| pattern_at(symbols_query_text(Lang::Cpp), "(namespace_definition name: (namespace_identifier) @namespace.name)"@, at),
        kind_of_prefix(before_dot(strip_ats("@fn.name"@))) == SymbolKind::Fn,
        kind_of_prefix(before_dot(strip_ats("@struct.name"@))) == SymbolKind::Struct,
        kind_of_prefix(before_dot(strip_ats("@enum.name"@))) == SymbolKind::Enum,
        kind_of_prefix(before_dot(strip_ats("@class.name"@))) == SymbolKind::Class,
        kind_of_prefix(before_dot(strip_ats("@namespace.name"@))) == SymbolKind::Namespace,
{
    reveal_strlit("(function_definition
               declarator: (function_declarator
                 declarator: [(identifier) @fn.name
                              (qualified_identifier) @fn.name]))
             (class_specifier name: (type_identifier) @class.name)
             (struct_specifier name: (type_identifier) @struct.name)
             (enum_specifier name: (type_identifier) @enum.name)
             (namespace_definition name: (namespace_identifier) @namespace.name)");
    let q = symbols_query_text(Lang::Cpp);
    reveal_strlit("(function_definition\n               declarator: (function_declarator\n                 declarator: [(identifier) @fn.name\n                              (qualified_identifier) @fn.name]))");
    assert(q.subrange(0, 185) =~= "(function_definition\n               declarator: (function_declarator\n                 declarator: [(identifier) @fn.name\n                              (qualified_identifier) @fn.name]))"@);
    assert(pattern_at(q, "(function_definition\n               declarator: (function_declarator\n                 declarator: [(identifier) @fn.name\n                              (qualified_identifier) @fn.name]))"@, 0));
    reveal_strlit("(class_specifier name: (type_identifier) @class.name)");
    assert(q.subrange(199, 252) =~= "(class_specifier name: (type_identifier) @class.name)"@);
    assert(pattern_at(q, "(class_specifier name: (type_identifier) @class.name)"@, 199));
    reveal_strlit("(struct_specifier name: (type_identifier) @struct.name)");
    assert(q.subrange(266, 321) =~= "(struct_specifier name: (type_identifier) @struct.name)"@);
    assert(pattern_at(q, "(struct_specifier name: (type_identifier) @struct.name)"@, 266));
    reveal_strlit("(enum_specifier name: (type_identifier) @enum.name)");
    assert(q.subrange(335, 386) =~= "(enum_specifier name: (type_identifier) @enum.name)"@);
    assert(pattern_at(q, "(enum_specifier name: (type_identifier) @enum.name)"@, 335));
    reveal_strlit("(namespace_definition name: (namespace_identifier) @namespace.name)");
    assert(q.subrange(400, 467) =~= "(namespace_definition name: (namespace_identifier) @namespace.name)"@);
    assert(pattern_at(q, "(namespace_definition name: (namespace_identifier) @namespace.name)"@, 400));
    lemma_capture_kinds();
}

/// The Swift symbol query holds each of its capture patterns, every
/// captured name standing for a symbol of the kind its capture says
/// (fn, struct, enum, type, class, interface).
pub proof fn law_swift_symbol_patterns()
    ensures
        exists|at: int| pattern_at(symbols_query_text(Lang::Swift), "(class_declaration\n               declaration_kind: \"struct\"\n               name: (type_identifier) @struct.name)"@, at),
        exists|at: int| pattern_at(symbols_query_text(Lang::Swift), "(class_declaration\n               declaration_kind: \"class\"\n               name: (type_identifier) @class.name)"@, at),
        exists|at: int| pattern_at(symbols_query_text(Lang::Swift), "(class_declaration\n               declaration_kind: \"actor\"\n               name: (type_identifier) @class.name)"@, at),
        exists|at: int| pattern_at(symbols_query_text(Lang::Swift), "(class_declaration\n               declaration_kind: \"enum\"\n               name: (type_identifier) @enum.name)"@, at),
        exists|at: int| pattern_at(symbols_query_text(Lang::Swift), "(class_declaration\n               declaration_kind: \"extension\"\n               name: (type_identifier) @type.name)"@, at),
        exists|at: int| pattern_at(symbols_query_text(Lang::Swift), "(function_declaration\n               (simple_identifier) @fn.name)"@, at),
        exists|at: int| pattern_at(symbols_query_text(Lang::Swift), "(protocol_declaration\n               name: (type_identifier) @interface.name)"@, at),
        exists|at: int| pattern_at(symbols_query_text(Lang::Swift), "(typealias_declaration\n               name: (type_identifier) @type.name)"@, at),
        kind_of_prefix(before_dot(strip_ats("@fn.name"@))) == SymbolKind::Fn,
        kind_of_prefix(before_dot(strip_ats("@struct.name"@))) == SymbolKind::Struct,
        kind_of_prefix(before_dot(strip_ats("@enum.name"@))) == SymbolKind::Enum,
        kind_of_prefix(before_dot(strip_ats("@type.name"@))) == SymbolKind::Type,
        kind_of_prefix(before_dot(strip_ats("@class.name"@))) == SymbolKind::Class,
        kind_of_prefix(before_dot(strip_ats("@interface.name"@))) == SymbolKind::Interface,
{
    reveal_strlit("(class_declaration
               declaration_kind: \"struct\"
               name: (type_identifier) @struct.name)
             (class_declaration
               declaration_kind: \"class\"
               name: (type_identifier) @class.name)
             (class_declaration
               declaration_kind: \"actor\"
               name: (type_identifier) @class.name)
             (class_declaration
               declaration_kind: \"enum\"
               name: (type_identifier) @enum.name)
             (class_declaration
               declaration_kind: \"extension\"
               name: (type_identifier) @type.name)
             (function_declaration
               (simple_identifier) @fn.name)
             (protocol_declaration
               name: (type_identifier) @interface.name)
             (typealias_declaration
               name: (type_identifier) @type.name)");
    let q = symbols_query_text(Lang::Swift);
    reveal_strlit("(class_declaration\n               declaration_kind: \"struct\"\n               name: (type_identifier) @struct.name)");
    assert(q.subrange(0, 113) =~= "(class_declaration\n               declaration_kind: \"struct\"\n               name: (type_identifier) @struct.name)"@);
    assert(pattern_at(q, "(class_declaration\n               declaration_kind: \"struct\"\n               name: (type_identifier) @struct.name)"@, 0));
    reveal_strlit("(class_declaration\n               declaration_kind: \"class\"\n               name: (type_identifier) @class.name)");
    assert(q.subrange(127, 238) =~= "(class_declaration\n               declaration_kind: \"class\"\n               name: (type_identifier) @class.name)"@);
    assert(pattern_at(q, "(class_declaration\n               declaration_kind: \"class\"\n               name: (type_identifier) @class.name)"@, 127));
    reveal_strlit("(class_declaration\n               declaration_kind: \"actor\"\n               name: (type_identifier) @class.name)");
    assert(q.subrange(252, 363) =~= "(class_declaration\n               declaration_kind: \"actor\"\n               name: (type_identifier) @class.name)"@);
    assert(pattern_at(q, "(class_declaration\n               declaration_kind: \"actor\"\n               name: (type_identifier) @class.name)"@, 252));
    reveal_strlit("(class_declaration\n               declaration_kind: \"enum\"\n               name: (type_identifier) @enum.name)");
    assert(q.subrange(377, 486) =~= "(class_declaration\n               declaration_kind: \"enum\"\n               name: (type_identifier) @enum.name)"@);
    assert(pattern_at(q, "(class_declaration\n               declaration_kind: \"enum\"\n               name: (type_identifier) @enum.name)"@, 377));
    reveal_strlit("(class_declaration\n               declaration_kind: \"extension\"\n               name: (type_identifier) @type.name)");
    assert(q.subrange(500, 614) =~= "(class_declaration\n               declaration_kind: \"extension\"\n               name: (type_identifier) @type.name)"@);
    assert(pattern_at(q, "(class_declaration\n               declaration_kind: \"extension\"\n               name: (type_identifier) @type.name)"@, 500));
    reveal_strlit("(function_declaration\n               (simple_identifier) @fn.name)");
    assert(q.subrange(628, 694) =~= "(function_declaration\n               (simple_identifier) @fn.name)"@);
    assert(pattern_at(q, "(function_declaration\n               (simple_identifier) @fn.name)"@, 628));
    reveal_strlit("(protocol_declaration\n               name: (type_identifier) @interface.name)");
    assert(q.subrange(708, 785) =~= "(protocol_declaration\n               name: (type_identifier) @interface.name)"@);
    assert(pattern_at(q, "(protocol_declaration\n               name: (type_identifier) @interface.name)"@, 708));
    reveal_strlit("(typealias_declaration\n               name: (type_identifier) @type.name)");
    assert(q.subrange(799, 872) =~= "(typealias_declaration\n               name: (type_identifier) @type.name)"@);
    assert(pattern_at(q, "(typealias_declaration\n               name: (type_identifier) @type.name)"@, 799));
    lemma_capture_kinds();
}

/// The Bash symbol query holds each of its capture patterns, every
/// captured name standing for a symbol of the kind its capture says
/// (fn).
pub proof fn law_bash_symbol_patterns()
    ensures
        exists|at: int| pattern_at(symbols_query_text(Lang::Bash), "(function_definition name: (word) @fn.name)"@, at),
        kind_of_prefix(before_dot(strip_ats("@fn.name"@))) == SymbolKind::Fn,
{
    reveal_strlit("(function_definition name: (word) @fn.name)");
    let q = symbols_query_text(Lang::Bash);
    reveal_strlit("(function_definition name: (word) @fn.name)");
    assert(q.subrange(0, 43) =~= "(function_definition name: (word) @fn.name)"@);
    assert(pattern_at(q, "(function_definition name: (word) @fn.name)"@, 0));
    lemma_capture_kinds();
}

} // verus!
