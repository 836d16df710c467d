//! The command line of the external tree renderer: the one external
//! process the run may start. Only the argument list is computed here;
//! the binary launches it and captures its output.

use vstd::prelude::*;

verus! {

/// The decimal digit character for `d`.
pub open spec fn digit_char(d: int) -> char {
    if d == 0 {
        '0'
    } else if d == 1 {
        '1'
    } else if d == 2 {
        '2'
    } else if d == 3 {
        '3'
    } else if d == 4 {
        '4'
    } else if d == 5 {
        '5'
    } else if d == 6 {
        '6'
    } else if d == 7 {
        '7'
    } else if d == 8 {
        '8'
    } else {
        '9'
    }
}

/// The decimal rendering of `n`, most significant digit first.
pub open spec fn decimal(n: nat) -> Seq<char>
    decreases n,
{
    if n < 10 {
        seq![digit_char(n as int)]
    } else {
        decimal(n / 10) + seq![digit_char((n % 10) as int)]
    }
}

/// The digit `d` as a one-character string slice.
fn digit_str(d: u32) -> (r: &'static str)
    requires
        d < 10,
    ensures
        r@ == seq![digit_char(d as int)],
{
    if d == 0 {
        proof {
            reveal_strlit("0");
            assert("0"@ =~= seq![digit_char(0)]);
        }
        "0"
    } else if d == 1 {
        proof {
            reveal_strlit("1");
            assert("1"@ =~= seq![digit_char(1)]);
        }
        "1"
    } else if d == 2 {
        proof {
            reveal_strlit("2");
            assert("2"@ =~= seq![digit_char(2)]);
        }
        "2"
    } else if d == 3 {
        proof {
            reveal_strlit("3");
            assert("3"@ =~= seq![digit_char(3)]);
        }
        "3"
    } else if d == 4 {
        proof {
            reveal_strlit("4");
            assert("4"@ =~= seq![digit_char(4)]);
        }
        "4"
    } else if d == 5 {
        proof {
            reveal_strlit("5");
            assert("5"@ =~= seq![digit_char(5)]);
        }
        "5"
    } else if d == 6 {
        proof {
            reveal_strlit("6");
            assert("6"@ =~= seq![digit_char(6)]);
        }
        "6"
    } else if d == 7 {
        proof {
            reveal_strlit("7");
            assert("7"@ =~= seq![digit_char(7)]);
        }
        "7"
    } else if d == 8 {
        proof {
            reveal_strlit("8");
            assert("8"@ =~= seq![digit_char(8)]);
        }
        "8"
    } else {
        proof {
            reveal_strlit("9");
            assert("9"@ =~= seq![digit_char(9)]);
        }
        "9"
    }
}

/// Renders `n` in decimal.
pub fn u32_to_string(n: u32) -> (r: String)
    ensures
        r@ == decimal(n as nat),
    decreases n,
{
    if n < 10 {
        String::from_str(digit_str(n))
    } else {
        let mut r = u32_to_string(n / 10);
        r.append(digit_str(n % 10));
        r
    }
}

/// The full command line for the external tree renderer: the program
/// name, the fixed flags asking for a tree-style, icon-annotated,
/// git-aware listing, the project path, and the optional depth bound.
pub fn tree_command(project_path: &str, tree_level: Option<u32>) -> (r: Vec<String>)
    ensures
        tree_level is None ==> r.deep_view() == seq![
            "eza"@,
            "--tree"@,
            "--icons"@,
            "--git"@,
            project_path@,
        ],
        tree_level is Some ==> r.deep_view() == seq![
            "eza"@,
            "--tree"@,
            "--icons"@,
            "--git"@,
            project_path@,
            "-L"@,
            decimal(tree_level->0 as nat),
        ],
{
    let mut v: Vec<String> = Vec::new();
    v.push(String::from_str("eza"));
    v.push(String::from_str("--tree"));
    v.push(String::from_str("--icons"));
    v.push(String::from_str("--git"));
    v.push(String::from_str(project_path));
    if tree_level.is_some() {
        let l = tree_level.unwrap();
        v.push(String::from_str("-L"));
        v.push(u32_to_string(l));
        proof {
            assert(v.deep_view() =~= seq![
                "eza"@,
                "--tree"@,
                "--icons"@,
                "--git"@,
                project_path@,
                "-L"@,
                decimal(tree_level->0 as nat),
            ]);
        }
    } else {
        proof {
            assert(v.deep_view() =~= seq![
                "eza"@,
                "--tree"@,
                "--icons"@,
                "--git"@,
                project_path@,
            ]);
        }
    }
    v
}

} // verus!
