//! Laws of the commands in formulas: which character each of them stands for.

use crate::render::math::{
    formula_text, is_frac, is_letter, is_lettering, is_sizing, is_spacing, law_a_command_alone,
    law_a_plain_character_stands_for_itself, law_scripts_are_raised_and_lowered,
    law_short_formulas_are_shallow, sequence_text,
};
use crate::render::symbols::{subscript_of, superscript_of, symbol_of};
use crate::text::{is_white, law_one_word};
use vstd::prelude::*;

verus! {

/// Whether a command stands for a symbol.
spec fn stands_for(name: Seq<char>, symbol: Seq<char>) -> bool {
    &&& symbol_of(name) == Some(symbol)
    &&& !is_frac(name)
    &&& name != "sqrt"@
    &&& !is_lettering(name)
    &&& !is_sizing(name)
    &&& !is_spacing(name)
    &&& name.len() > 0
    &&& forall|i: int| 0 <= i < name.len() ==> is_letter(#[trigger] name[i])
}

/// A command that stands alone is shown as its symbol.
proof fn lemma_shown(tex: Seq<char>, name: Seq<char>, symbol: Seq<char>)
    requires
        tex.len() == name.len() + 1,
        tex[0] == '\\',
        forall|i: int| 0 <= i < name.len() ==> tex[i + 1] == #[trigger] name[i],
        stands_for(name, symbol),
        symbol.len() == 1,
        !is_white(symbol[0]),
    ensures
        formula_text(tex) == symbol,
        tex == seq!['\\'] + name,
{
    assert(tex =~= seq!['\\'] + name);
    law_a_command_alone(name, symbol);
    law_one_word(symbol);
}

/// A function that stands alone is shown as its name.
proof fn lemma_named(tex: Seq<char>, name: Seq<char>, symbol: Seq<char>, shown: Seq<char>)
    requires
        tex.len() == name.len() + 1,
        tex[0] == '\\',
        forall|i: int| 0 <= i < name.len() ==> tex[i + 1] == #[trigger] name[i],
        stands_for(name, symbol),
        symbol == seq![' '] + shown + seq![' '],
        shown.len() > 0,
        forall|i: int| 0 <= i < shown.len() ==> !is_white(#[trigger] shown[i]),
    ensures
        formula_text(tex) == shown,
        tex == seq!['\\'] + name,
{
    assert(tex =~= seq!['\\'] + name);
    law_a_command_alone(name, symbol);
    crate::text::law_one_word_between_blanks(shown);
}

/// How the names of commands are spelled.
spec fn spellings() -> bool {
    &&& "alpha"@.len() == 5
    &&& "alpha"@[0] == 'a' && "alpha"@[1] == 'l' && "alpha"@[2] == 'p' && "alpha"@[3] == 'h' && "alpha"@[4] == 'a'
    &&& "beta"@.len() == 4
    &&& "beta"@[0] == 'b' && "beta"@[1] == 'e' && "beta"@[2] == 't' && "beta"@[3] == 'a'
    &&& "gamma"@.len() == 5
    &&& "gamma"@[0] == 'g' && "gamma"@[1] == 'a' && "gamma"@[2] == 'm' && "gamma"@[3] == 'm' && "gamma"@[4] == 'a'
    &&& "delta"@.len() == 5
    &&& "delta"@[0] == 'd' && "delta"@[1] == 'e' && "delta"@[2] == 'l' && "delta"@[3] == 't' && "delta"@[4] == 'a'
    &&& "epsilon"@.len() == 7
    &&& "epsilon"@[0] == 'e' && "epsilon"@[1] == 'p' && "epsilon"@[2] == 's' && "epsilon"@[3] == 'i' && "epsilon"@[4] == 'l' && "epsilon"@[5] == 'o' && "epsilon"@[6] == 'n'
    &&& "varepsilon"@.len() == 10
    &&& "varepsilon"@[0] == 'v' && "varepsilon"@[1] == 'a' && "varepsilon"@[2] == 'r' && "varepsilon"@[3] == 'e' && "varepsilon"@[4] == 'p' && "varepsilon"@[5] == 's' && "varepsilon"@[6] == 'i' && "varepsilon"@[7] == 'l' && "varepsilon"@[8] == 'o' && "varepsilon"@[9] == 'n'
    &&& "zeta"@.len() == 4
    &&& "zeta"@[0] == 'z' && "zeta"@[1] == 'e' && "zeta"@[2] == 't' && "zeta"@[3] == 'a'
    &&& "eta"@.len() == 3
    &&& "eta"@[0] == 'e' && "eta"@[1] == 't' && "eta"@[2] == 'a'
    &&& "theta"@.len() == 5
    &&& "theta"@[0] == 't' && "theta"@[1] == 'h' && "theta"@[2] == 'e' && "theta"@[3] == 't' && "theta"@[4] == 'a'
    &&& "vartheta"@.len() == 8
    &&& "vartheta"@[0] == 'v' && "vartheta"@[1] == 'a' && "vartheta"@[2] == 'r' && "vartheta"@[3] == 't' && "vartheta"@[4] == 'h' && "vartheta"@[5] == 'e' && "vartheta"@[6] == 't' && "vartheta"@[7] == 'a'
    &&& "iota"@.len() == 4
    &&& "iota"@[0] == 'i' && "iota"@[1] == 'o' && "iota"@[2] == 't' && "iota"@[3] == 'a'
    &&& "kappa"@.len() == 5
    &&& "kappa"@[0] == 'k' && "kappa"@[1] == 'a' && "kappa"@[2] == 'p' && "kappa"@[3] == 'p' && "kappa"@[4] == 'a'
    &&& "lambda"@.len() == 6
    &&& "lambda"@[0] == 'l' && "lambda"@[1] == 'a' && "lambda"@[2] == 'm' && "lambda"@[3] == 'b' && "lambda"@[4] == 'd' && "lambda"@[5] == 'a'
    &&& "mu"@.len() == 2
    &&& "mu"@[0] == 'm' && "mu"@[1] == 'u'
    &&& "nu"@.len() == 2
    &&& "nu"@[0] == 'n' && "nu"@[1] == 'u'
    &&& "xi"@.len() == 2
    &&& "xi"@[0] == 'x' && "xi"@[1] == 'i'
    &&& "pi"@.len() == 2
    &&& "pi"@[0] == 'p' && "pi"@[1] == 'i'
    &&& "rho"@.len() == 3
    &&& "rho"@[0] == 'r' && "rho"@[1] == 'h' && "rho"@[2] == 'o'
    &&& "sigma"@.len() == 5
    &&& "sigma"@[0] == 's' && "sigma"@[1] == 'i' && "sigma"@[2] == 'g' && "sigma"@[3] == 'm' && "sigma"@[4] == 'a'
    &&& "tau"@.len() == 3
    &&& "tau"@[0] == 't' && "tau"@[1] == 'a' && "tau"@[2] == 'u'
    &&& "upsilon"@.len() == 7
    &&& "upsilon"@[0] == 'u' && "upsilon"@[1] == 'p' && "upsilon"@[2] == 's' && "upsilon"@[3] == 'i' && "upsilon"@[4] == 'l' && "upsilon"@[5] == 'o' && "upsilon"@[6] == 'n'
    &&& "phi"@.len() == 3
    &&& "phi"@[0] == 'p' && "phi"@[1] == 'h' && "phi"@[2] == 'i'
    &&& "varphi"@.len() == 6
    &&& "varphi"@[0] == 'v' && "varphi"@[1] == 'a' && "varphi"@[2] == 'r' && "varphi"@[3] == 'p' && "varphi"@[4] == 'h' && "varphi"@[5] == 'i'
    &&& "chi"@.len() == 3
    &&& "chi"@[0] == 'c' && "chi"@[1] == 'h' && "chi"@[2] == 'i'
    &&& "psi"@.len() == 3
    &&& "psi"@[0] == 'p' && "psi"@[1] == 's' && "psi"@[2] == 'i'
    &&& "omega"@.len() == 5
    &&& "omega"@[0] == 'o' && "omega"@[1] == 'm' && "omega"@[2] == 'e' && "omega"@[3] == 'g' && "omega"@[4] == 'a'
    &&& "Gamma"@.len() == 5
    &&& "Gamma"@[0] == 'G' && "Gamma"@[1] == 'a' && "Gamma"@[2] == 'm' && "Gamma"@[3] == 'm' && "Gamma"@[4] == 'a'
    &&& "Delta"@.len() == 5
    &&& "Delta"@[0] == 'D' && "Delta"@[1] == 'e' && "Delta"@[2] == 'l' && "Delta"@[3] == 't' && "Delta"@[4] == 'a'
    &&& "Theta"@.len() == 5
    &&& "Theta"@[0] == 'T' && "Theta"@[1] == 'h' && "Theta"@[2] == 'e' && "Theta"@[3] == 't' && "Theta"@[4] == 'a'
    &&& "Lambda"@.len() == 6
    &&& "Lambda"@[0] == 'L' && "Lambda"@[1] == 'a' && "Lambda"@[2] == 'm' && "Lambda"@[3] == 'b' && "Lambda"@[4] == 'd' && "Lambda"@[5] == 'a'
    &&& "Xi"@.len() == 2
    &&& "Xi"@[0] == 'X' && "Xi"@[1] == 'i'
    &&& "Pi"@.len() == 2
    &&& "Pi"@[0] == 'P' && "Pi"@[1] == 'i'
    &&& "Sigma"@.len() == 5
    &&& "Sigma"@[0] == 'S' && "Sigma"@[1] == 'i' && "Sigma"@[2] == 'g' && "Sigma"@[3] == 'm' && "Sigma"@[4] == 'a'
    &&& "Upsilon"@.len() == 7
    &&& "Upsilon"@[0] == 'U' && "Upsilon"@[1] == 'p' && "Upsilon"@[2] == 's' && "Upsilon"@[3] == 'i' && "Upsilon"@[4] == 'l' && "Upsilon"@[5] == 'o' && "Upsilon"@[6] == 'n'
    &&& "Phi"@.len() == 3
    &&& "Phi"@[0] == 'P' && "Phi"@[1] == 'h' && "Phi"@[2] == 'i'
    &&& "Psi"@.len() == 3
    &&& "Psi"@[0] == 'P' && "Psi"@[1] == 's' && "Psi"@[2] == 'i'
    &&& "Omega"@.len() == 5
    &&& "Omega"@[0] == 'O' && "Omega"@[1] == 'm' && "Omega"@[2] == 'e' && "Omega"@[3] == 'g' && "Omega"@[4] == 'a'
    &&& "infty"@.len() == 5
    &&& "infty"@[0] == 'i' && "infty"@[1] == 'n' && "infty"@[2] == 'f' && "infty"@[3] == 't' && "infty"@[4] == 'y'
    &&& "partial"@.len() == 7
    &&& "partial"@[0] == 'p' && "partial"@[1] == 'a' && "partial"@[2] == 'r' && "partial"@[3] == 't' && "partial"@[4] == 'i' && "partial"@[5] == 'a' && "partial"@[6] == 'l'
    &&& "nabla"@.len() == 5
    &&& "nabla"@[0] == 'n' && "nabla"@[1] == 'a' && "nabla"@[2] == 'b' && "nabla"@[3] == 'l' && "nabla"@[4] == 'a'
    &&& "pm"@.len() == 2
    &&& "pm"@[0] == 'p' && "pm"@[1] == 'm'
    &&& "mp"@.len() == 2
    &&& "mp"@[0] == 'm' && "mp"@[1] == 'p'
    &&& "times"@.len() == 5
    &&& "times"@[0] == 't' && "times"@[1] == 'i' && "times"@[2] == 'm' && "times"@[3] == 'e' && "times"@[4] == 's'
    &&& "div"@.len() == 3
    &&& "div"@[0] == 'd' && "div"@[1] == 'i' && "div"@[2] == 'v'
    &&& "cdot"@.len() == 4
    &&& "cdot"@[0] == 'c' && "cdot"@[1] == 'd' && "cdot"@[2] == 'o' && "cdot"@[3] == 't'
    &&& "bullet"@.len() == 6
    &&& "bullet"@[0] == 'b' && "bullet"@[1] == 'u' && "bullet"@[2] == 'l' && "bullet"@[3] == 'l' && "bullet"@[4] == 'e' && "bullet"@[5] == 't'
    &&& "circ"@.len() == 4
    &&& "circ"@[0] == 'c' && "circ"@[1] == 'i' && "circ"@[2] == 'r' && "circ"@[3] == 'c'
    &&& "approx"@.len() == 6
    &&& "approx"@[0] == 'a' && "approx"@[1] == 'p' && "approx"@[2] == 'p' && "approx"@[3] == 'r' && "approx"@[4] == 'o' && "approx"@[5] == 'x'
    &&& "neq"@.len() == 3
    &&& "neq"@[0] == 'n' && "neq"@[1] == 'e' && "neq"@[2] == 'q'
    &&& "ne"@.len() == 2
    &&& "ne"@[0] == 'n' && "ne"@[1] == 'e'
    &&& "leq"@.len() == 3
    &&& "leq"@[0] == 'l' && "leq"@[1] == 'e' && "leq"@[2] == 'q'
    &&& "le"@.len() == 2
    &&& "le"@[0] == 'l' && "le"@[1] == 'e'
    &&& "geq"@.len() == 3
    &&& "geq"@[0] == 'g' && "geq"@[1] == 'e' && "geq"@[2] == 'q'
    &&& "ge"@.len() == 2
    &&& "ge"@[0] == 'g' && "ge"@[1] == 'e'
    &&& "ll"@.len() == 2
    &&& "ll"@[0] == 'l' && "ll"@[1] == 'l'
    &&& "gg"@.len() == 2
    &&& "gg"@[0] == 'g' && "gg"@[1] == 'g'
    &&& "sim"@.len() == 3
    &&& "sim"@[0] == 's' && "sim"@[1] == 'i' && "sim"@[2] == 'm'
    &&& "simeq"@.len() == 5
    &&& "simeq"@[0] == 's' && "simeq"@[1] == 'i' && "simeq"@[2] == 'm' && "simeq"@[3] == 'e' && "simeq"@[4] == 'q'
    &&& "equiv"@.len() == 5
    &&& "equiv"@[0] == 'e' && "equiv"@[1] == 'q' && "equiv"@[2] == 'u' && "equiv"@[3] == 'i' && "equiv"@[4] == 'v'
    &&& "propto"@.len() == 6
    &&& "propto"@[0] == 'p' && "propto"@[1] == 'r' && "propto"@[2] == 'o' && "propto"@[3] == 'p' && "propto"@[4] == 't' && "propto"@[5] == 'o'
    &&& "to"@.len() == 2
    &&& "to"@[0] == 't' && "to"@[1] == 'o'
    &&& "gets"@.len() == 4
    &&& "gets"@[0] == 'g' && "gets"@[1] == 'e' && "gets"@[2] == 't' && "gets"@[3] == 's'
    &&& "mapsto"@.len() == 6
    &&& "mapsto"@[0] == 'm' && "mapsto"@[1] == 'a' && "mapsto"@[2] == 'p' && "mapsto"@[3] == 's' && "mapsto"@[4] == 't' && "mapsto"@[5] == 'o'
    &&& "Rightarrow"@.len() == 10
    &&& "Rightarrow"@[0] == 'R' && "Rightarrow"@[1] == 'i' && "Rightarrow"@[2] == 'g' && "Rightarrow"@[3] == 'h' && "Rightarrow"@[4] == 't' && "Rightarrow"@[5] == 'a' && "Rightarrow"@[6] == 'r' && "Rightarrow"@[7] == 'r' && "Rightarrow"@[8] == 'o' && "Rightarrow"@[9] == 'w'
    &&& "Leftarrow"@.len() == 9
    &&& "Leftarrow"@[0] == 'L' && "Leftarrow"@[1] == 'e' && "Leftarrow"@[2] == 'f' && "Leftarrow"@[3] == 't' && "Leftarrow"@[4] == 'a' && "Leftarrow"@[5] == 'r' && "Leftarrow"@[6] == 'r' && "Leftarrow"@[7] == 'o' && "Leftarrow"@[8] == 'w'
    &&& "Leftrightarrow"@.len() == 14
    &&& "Leftrightarrow"@[0] == 'L' && "Leftrightarrow"@[1] == 'e' && "Leftrightarrow"@[2] == 'f' && "Leftrightarrow"@[3] == 't' && "Leftrightarrow"@[4] == 'r' && "Leftrightarrow"@[5] == 'i' && "Leftrightarrow"@[6] == 'g' && "Leftrightarrow"@[7] == 'h' && "Leftrightarrow"@[8] == 't' && "Leftrightarrow"@[9] == 'a' && "Leftrightarrow"@[10] == 'r' && "Leftrightarrow"@[11] == 'r' && "Leftrightarrow"@[12] == 'o' && "Leftrightarrow"@[13] == 'w'
    &&& "rightarrow"@.len() == 10
    &&& "rightarrow"@[0] == 'r' && "rightarrow"@[1] == 'i' && "rightarrow"@[2] == 'g' && "rightarrow"@[3] == 'h' && "rightarrow"@[4] == 't' && "rightarrow"@[5] == 'a' && "rightarrow"@[6] == 'r' && "rightarrow"@[7] == 'r' && "rightarrow"@[8] == 'o' && "rightarrow"@[9] == 'w'
    &&& "leftarrow"@.len() == 9
    &&& "leftarrow"@[0] == 'l' && "leftarrow"@[1] == 'e' && "leftarrow"@[2] == 'f' && "leftarrow"@[3] == 't' && "leftarrow"@[4] == 'a' && "leftarrow"@[5] == 'r' && "leftarrow"@[6] == 'r' && "leftarrow"@[7] == 'o' && "leftarrow"@[8] == 'w'
    &&& "leftrightarrow"@.len() == 14
    &&& "leftrightarrow"@[0] == 'l' && "leftrightarrow"@[1] == 'e' && "leftrightarrow"@[2] == 'f' && "leftrightarrow"@[3] == 't' && "leftrightarrow"@[4] == 'r' && "leftrightarrow"@[5] == 'i' && "leftrightarrow"@[6] == 'g' && "leftrightarrow"@[7] == 'h' && "leftrightarrow"@[8] == 't' && "leftrightarrow"@[9] == 'a' && "leftrightarrow"@[10] == 'r' && "leftrightarrow"@[11] == 'r' && "leftrightarrow"@[12] == 'o' && "leftrightarrow"@[13] == 'w'
    &&& "uparrow"@.len() == 7
    &&& "uparrow"@[0] == 'u' && "uparrow"@[1] == 'p' && "uparrow"@[2] == 'a' && "uparrow"@[3] == 'r' && "uparrow"@[4] == 'r' && "uparrow"@[5] == 'o' && "uparrow"@[6] == 'w'
    &&& "downarrow"@.len() == 9
    &&& "downarrow"@[0] == 'd' && "downarrow"@[1] == 'o' && "downarrow"@[2] == 'w' && "downarrow"@[3] == 'n' && "downarrow"@[4] == 'a' && "downarrow"@[5] == 'r' && "downarrow"@[6] == 'r' && "downarrow"@[7] == 'o' && "downarrow"@[8] == 'w'
    &&& "in"@.len() == 2
    &&& "in"@[0] == 'i' && "in"@[1] == 'n'
    &&& "notin"@.len() == 5
    &&& "notin"@[0] == 'n' && "notin"@[1] == 'o' && "notin"@[2] == 't' && "notin"@[3] == 'i' && "notin"@[4] == 'n'
    &&& "ni"@.len() == 2
    &&& "ni"@[0] == 'n' && "ni"@[1] == 'i'
    &&& "subset"@.len() == 6
    &&& "subset"@[0] == 's' && "subset"@[1] == 'u' && "subset"@[2] == 'b' && "subset"@[3] == 's' && "subset"@[4] == 'e' && "subset"@[5] == 't'
    &&& "supset"@.len() == 6
    &&& "supset"@[0] == 's' && "supset"@[1] == 'u' && "supset"@[2] == 'p' && "supset"@[3] == 's' && "supset"@[4] == 'e' && "supset"@[5] == 't'
    &&& "subseteq"@.len() == 8
    &&& "subseteq"@[0] == 's' && "subseteq"@[1] == 'u' && "subseteq"@[2] == 'b' && "subseteq"@[3] == 's' && "subseteq"@[4] == 'e' && "subseteq"@[5] == 't' && "subseteq"@[6] == 'e' && "subseteq"@[7] == 'q'
    &&& "supseteq"@.len() == 8
    &&& "supseteq"@[0] == 's' && "supseteq"@[1] == 'u' && "supseteq"@[2] == 'p' && "supseteq"@[3] == 's' && "supseteq"@[4] == 'e' && "supseteq"@[5] == 't' && "supseteq"@[6] == 'e' && "supseteq"@[7] == 'q'
    &&& "cup"@.len() == 3
    &&& "cup"@[0] == 'c' && "cup"@[1] == 'u' && "cup"@[2] == 'p'
    &&& "cap"@.len() == 3
    &&& "cap"@[0] == 'c' && "cap"@[1] == 'a' && "cap"@[2] == 'p'
    &&& "emptyset"@.len() == 8
    &&& "emptyset"@[0] == 'e' && "emptyset"@[1] == 'm' && "emptyset"@[2] == 'p' && "emptyset"@[3] == 't' && "emptyset"@[4] == 'y' && "emptyset"@[5] == 's' && "emptyset"@[6] == 'e' && "emptyset"@[7] == 't'
    &&& "varnothing"@.len() == 10
    &&& "varnothing"@[0] == 'v' && "varnothing"@[1] == 'a' && "varnothing"@[2] == 'r' && "varnothing"@[3] == 'n' && "varnothing"@[4] == 'o' && "varnothing"@[5] == 't' && "varnothing"@[6] == 'h' && "varnothing"@[7] == 'i' && "varnothing"@[8] == 'n' && "varnothing"@[9] == 'g'
    &&& "setminus"@.len() == 8
    &&& "setminus"@[0] == 's' && "setminus"@[1] == 'e' && "setminus"@[2] == 't' && "setminus"@[3] == 'm' && "setminus"@[4] == 'i' && "setminus"@[5] == 'n' && "setminus"@[6] == 'u' && "setminus"@[7] == 's'
    &&& "forall"@.len() == 6
    &&& "forall"@[0] == 'f' && "forall"@[1] == 'o' && "forall"@[2] == 'r' && "forall"@[3] == 'a' && "forall"@[4] == 'l' && "forall"@[5] == 'l'
    &&& "exists"@.len() == 6
    &&& "exists"@[0] == 'e' && "exists"@[1] == 'x' && "exists"@[2] == 'i' && "exists"@[3] == 's' && "exists"@[4] == 't' && "exists"@[5] == 's'
    &&& "nexists"@.len() == 7
    &&& "nexists"@[0] == 'n' && "nexists"@[1] == 'e' && "nexists"@[2] == 'x' && "nexists"@[3] == 'i' && "nexists"@[4] == 's' && "nexists"@[5] == 't' && "nexists"@[6] == 's'
    &&& "neg"@.len() == 3
    &&& "neg"@[0] == 'n' && "neg"@[1] == 'e' && "neg"@[2] == 'g'
    &&& "lnot"@.len() == 4
    &&& "lnot"@[0] == 'l' && "lnot"@[1] == 'n' && "lnot"@[2] == 'o' && "lnot"@[3] == 't'
    &&& "land"@.len() == 4
    &&& "land"@[0] == 'l' && "land"@[1] == 'a' && "land"@[2] == 'n' && "land"@[3] == 'd'
    &&& "wedge"@.len() == 5
    &&& "wedge"@[0] == 'w' && "wedge"@[1] == 'e' && "wedge"@[2] == 'd' && "wedge"@[3] == 'g' && "wedge"@[4] == 'e'
    &&& "lor"@.len() == 3
    &&& "lor"@[0] == 'l' && "lor"@[1] == 'o' && "lor"@[2] == 'r'
    &&& "vee"@.len() == 3
    &&& "vee"@[0] == 'v' && "vee"@[1] == 'e' && "vee"@[2] == 'e'
    &&& "sum"@.len() == 3
    &&& "sum"@[0] == 's' && "sum"@[1] == 'u' && "sum"@[2] == 'm'
    &&& "prod"@.len() == 4
    &&& "prod"@[0] == 'p' && "prod"@[1] == 'r' && "prod"@[2] == 'o' && "prod"@[3] == 'd'
    &&& "int"@.len() == 3
    &&& "int"@[0] == 'i' && "int"@[1] == 'n' && "int"@[2] == 't'
    &&& "iint"@.len() == 4
    &&& "iint"@[0] == 'i' && "iint"@[1] == 'i' && "iint"@[2] == 'n' && "iint"@[3] == 't'
    &&& "iiint"@.len() == 5
    &&& "iiint"@[0] == 'i' && "iiint"@[1] == 'i' && "iiint"@[2] == 'i' && "iiint"@[3] == 'n' && "iiint"@[4] == 't'
    &&& "oint"@.len() == 4
    &&& "oint"@[0] == 'o' && "oint"@[1] == 'i' && "oint"@[2] == 'n' && "oint"@[3] == 't'
    &&& "bigcup"@.len() == 6
    &&& "bigcup"@[0] == 'b' && "bigcup"@[1] == 'i' && "bigcup"@[2] == 'g' && "bigcup"@[3] == 'c' && "bigcup"@[4] == 'u' && "bigcup"@[5] == 'p'
    &&& "bigcap"@.len() == 6
    &&& "bigcap"@[0] == 'b' && "bigcap"@[1] == 'i' && "bigcap"@[2] == 'g' && "bigcap"@[3] == 'c' && "bigcap"@[4] == 'a' && "bigcap"@[5] == 'p'
    &&& "sin"@.len() == 3
    &&& "sin"@[0] == 's' && "sin"@[1] == 'i' && "sin"@[2] == 'n'
    &&& "cos"@.len() == 3
    &&& "cos"@[0] == 'c' && "cos"@[1] == 'o' && "cos"@[2] == 's'
    &&& "tan"@.len() == 3
    &&& "tan"@[0] == 't' && "tan"@[1] == 'a' && "tan"@[2] == 'n'
    &&& "log"@.len() == 3
    &&& "log"@[0] == 'l' && "log"@[1] == 'o' && "log"@[2] == 'g'
    &&& "ln"@.len() == 2
    &&& "ln"@[0] == 'l' && "ln"@[1] == 'n'
    &&& "exp"@.len() == 3
    &&& "exp"@[0] == 'e' && "exp"@[1] == 'x' && "exp"@[2] == 'p'
    &&& "lim"@.len() == 3
    &&& "lim"@[0] == 'l' && "lim"@[1] == 'i' && "lim"@[2] == 'm'
    &&& "max"@.len() == 3
    &&& "max"@[0] == 'm' && "max"@[1] == 'a' && "max"@[2] == 'x'
    &&& "min"@.len() == 3
    &&& "min"@[0] == 'm' && "min"@[1] == 'i' && "min"@[2] == 'n'
    &&& "sup"@.len() == 3
    &&& "sup"@[0] == 's' && "sup"@[1] == 'u' && "sup"@[2] == 'p'
    &&& "inf"@.len() == 3
    &&& "inf"@[0] == 'i' && "inf"@[1] == 'n' && "inf"@[2] == 'f'
    &&& "arg"@.len() == 3
    &&& "arg"@[0] == 'a' && "arg"@[1] == 'r' && "arg"@[2] == 'g'
    &&& "det"@.len() == 3
    &&& "det"@[0] == 'd' && "det"@[1] == 'e' && "det"@[2] == 't'
    &&& "gcd"@.len() == 3
    &&& "gcd"@[0] == 'g' && "gcd"@[1] == 'c' && "gcd"@[2] == 'd'
    &&& "mod"@.len() == 3
    &&& "mod"@[0] == 'm' && "mod"@[1] == 'o' && "mod"@[2] == 'd'
    &&& "bmod"@.len() == 4
    &&& "bmod"@[0] == 'b' && "bmod"@[1] == 'm' && "bmod"@[2] == 'o' && "bmod"@[3] == 'd'
    &&& "pmod"@.len() == 4
    &&& "pmod"@[0] == 'p' && "pmod"@[1] == 'm' && "pmod"@[2] == 'o' && "pmod"@[3] == 'd'
    &&& "ldots"@.len() == 5
    &&& "ldots"@[0] == 'l' && "ldots"@[1] == 'd' && "ldots"@[2] == 'o' && "ldots"@[3] == 't' && "ldots"@[4] == 's'
    &&& "cdots"@.len() == 5
    &&& "cdots"@[0] == 'c' && "cdots"@[1] == 'd' && "cdots"@[2] == 'o' && "cdots"@[3] == 't' && "cdots"@[4] == 's'
    &&& "dots"@.len() == 4
    &&& "dots"@[0] == 'd' && "dots"@[1] == 'o' && "dots"@[2] == 't' && "dots"@[3] == 's'
    &&& "vdots"@.len() == 5
    &&& "vdots"@[0] == 'v' && "vdots"@[1] == 'd' && "vdots"@[2] == 'o' && "vdots"@[3] == 't' && "vdots"@[4] == 's'
    &&& "ddots"@.len() == 5
    &&& "ddots"@[0] == 'd' && "ddots"@[1] == 'd' && "ddots"@[2] == 'o' && "ddots"@[3] == 't' && "ddots"@[4] == 's'
    &&& "prime"@.len() == 5
    &&& "prime"@[0] == 'p' && "prime"@[1] == 'r' && "prime"@[2] == 'i' && "prime"@[3] == 'm' && "prime"@[4] == 'e'
    &&& "dagger"@.len() == 6
    &&& "dagger"@[0] == 'd' && "dagger"@[1] == 'a' && "dagger"@[2] == 'g' && "dagger"@[3] == 'g' && "dagger"@[4] == 'e' && "dagger"@[5] == 'r'
    &&& "ddagger"@.len() == 7
    &&& "ddagger"@[0] == 'd' && "ddagger"@[1] == 'd' && "ddagger"@[2] == 'a' && "ddagger"@[3] == 'g' && "ddagger"@[4] == 'g' && "ddagger"@[5] == 'e' && "ddagger"@[6] == 'r'
    &&& "star"@.len() == 4
    &&& "star"@[0] == 's' && "star"@[1] == 't' && "star"@[2] == 'a' && "star"@[3] == 'r'
    &&& "ast"@.len() == 3
    &&& "ast"@[0] == 'a' && "ast"@[1] == 's' && "ast"@[2] == 't'
    &&& "oplus"@.len() == 5
    &&& "oplus"@[0] == 'o' && "oplus"@[1] == 'p' && "oplus"@[2] == 'l' && "oplus"@[3] == 'u' && "oplus"@[4] == 's'
    &&& "otimes"@.len() == 6
    &&& "otimes"@[0] == 'o' && "otimes"@[1] == 't' && "otimes"@[2] == 'i' && "otimes"@[3] == 'm' && "otimes"@[4] == 'e' && "otimes"@[5] == 's'
    &&& "ominus"@.len() == 6
    &&& "ominus"@[0] == 'o' && "ominus"@[1] == 'm' && "ominus"@[2] == 'i' && "ominus"@[3] == 'n' && "ominus"@[4] == 'u' && "ominus"@[5] == 's'
    &&& "odot"@.len() == 4
    &&& "odot"@[0] == 'o' && "odot"@[1] == 'd' && "odot"@[2] == 'o' && "odot"@[3] == 't'
    &&& "perp"@.len() == 4
    &&& "perp"@[0] == 'p' && "perp"@[1] == 'e' && "perp"@[2] == 'r' && "perp"@[3] == 'p'
    &&& "parallel"@.len() == 8
    &&& "parallel"@[0] == 'p' && "parallel"@[1] == 'a' && "parallel"@[2] == 'r' && "parallel"@[3] == 'a' && "parallel"@[4] == 'l' && "parallel"@[5] == 'l' && "parallel"@[6] == 'e' && "parallel"@[7] == 'l'
    &&& "angle"@.len() == 5
    &&& "angle"@[0] == 'a' && "angle"@[1] == 'n' && "angle"@[2] == 'g' && "angle"@[3] == 'l' && "angle"@[4] == 'e'
    &&& "triangle"@.len() == 8
    &&& "triangle"@[0] == 't' && "triangle"@[1] == 'r' && "triangle"@[2] == 'i' && "triangle"@[3] == 'a' && "triangle"@[4] == 'n' && "triangle"@[5] == 'g' && "triangle"@[6] == 'l' && "triangle"@[7] == 'e'
    &&& "top"@.len() == 3
    &&& "top"@[0] == 't' && "top"@[1] == 'o' && "top"@[2] == 'p'
    &&& "bot"@.len() == 3
    &&& "bot"@[0] == 'b' && "bot"@[1] == 'o' && "bot"@[2] == 't'
    &&& "vdash"@.len() == 5
    &&& "vdash"@[0] == 'v' && "vdash"@[1] == 'd' && "vdash"@[2] == 'a' && "vdash"@[3] == 's' && "vdash"@[4] == 'h'
    &&& "dashv"@.len() == 5
    &&& "dashv"@[0] == 'd' && "dashv"@[1] == 'a' && "dashv"@[2] == 's' && "dashv"@[3] == 'h' && "dashv"@[4] == 'v'
    &&& "models"@.len() == 6
    &&& "models"@[0] == 'm' && "models"@[1] == 'o' && "models"@[2] == 'd' && "models"@[3] == 'e' && "models"@[4] == 'l' && "models"@[5] == 's'
    &&& "hbar"@.len() == 4
    &&& "hbar"@[0] == 'h' && "hbar"@[1] == 'b' && "hbar"@[2] == 'a' && "hbar"@[3] == 'r'
    &&& "ell"@.len() == 3
    &&& "ell"@[0] == 'e' && "ell"@[1] == 'l' && "ell"@[2] == 'l'
    &&& "Re"@.len() == 2
    &&& "Re"@[0] == 'R' && "Re"@[1] == 'e'
    &&& "Im"@.len() == 2
    &&& "Im"@[0] == 'I' && "Im"@[1] == 'm'
    &&& "aleph"@.len() == 5
    &&& "aleph"@[0] == 'a' && "aleph"@[1] == 'l' && "aleph"@[2] == 'e' && "aleph"@[3] == 'p' && "aleph"@[4] == 'h'
    &&& "wp"@.len() == 2
    &&& "wp"@[0] == 'w' && "wp"@[1] == 'p'
    &&& "degree"@.len() == 6
    &&& "degree"@[0] == 'd' && "degree"@[1] == 'e' && "degree"@[2] == 'g' && "degree"@[3] == 'r' && "degree"@[4] == 'e' && "degree"@[5] == 'e'
    &&& "prec"@.len() == 4
    &&& "prec"@[0] == 'p' && "prec"@[1] == 'r' && "prec"@[2] == 'e' && "prec"@[3] == 'c'
    &&& "succ"@.len() == 4
    &&& "succ"@[0] == 's' && "succ"@[1] == 'u' && "succ"@[2] == 'c' && "succ"@[3] == 'c'
    &&& "langle"@.len() == 6
    &&& "langle"@[0] == 'l' && "langle"@[1] == 'a' && "langle"@[2] == 'n' && "langle"@[3] == 'g' && "langle"@[4] == 'l' && "langle"@[5] == 'e'
    &&& "rangle"@.len() == 6
    &&& "rangle"@[0] == 'r' && "rangle"@[1] == 'a' && "rangle"@[2] == 'n' && "rangle"@[3] == 'g' && "rangle"@[4] == 'l' && "rangle"@[5] == 'e'
    &&& "lceil"@.len() == 5
    &&& "lceil"@[0] == 'l' && "lceil"@[1] == 'c' && "lceil"@[2] == 'e' && "lceil"@[3] == 'i' && "lceil"@[4] == 'l'
    &&& "rceil"@.len() == 5
    &&& "rceil"@[0] == 'r' && "rceil"@[1] == 'c' && "rceil"@[2] == 'e' && "rceil"@[3] == 'i' && "rceil"@[4] == 'l'
    &&& "lfloor"@.len() == 6
    &&& "lfloor"@[0] == 'l' && "lfloor"@[1] == 'f' && "lfloor"@[2] == 'l' && "lfloor"@[3] == 'o' && "lfloor"@[4] == 'o' && "lfloor"@[5] == 'r'
    &&& "rfloor"@.len() == 6
    &&& "rfloor"@[0] == 'r' && "rfloor"@[1] == 'f' && "rfloor"@[2] == 'l' && "rfloor"@[3] == 'o' && "rfloor"@[4] == 'o' && "rfloor"@[5] == 'r'
    &&& "colon"@.len() == 5
    &&& "colon"@[0] == 'c' && "colon"@[1] == 'o' && "colon"@[2] == 'l' && "colon"@[3] == 'o' && "colon"@[4] == 'n'
    &&& "frac"@.len() == 4
    &&& "frac"@[0] == 'f' && "frac"@[1] == 'r' && "frac"@[2] == 'a' && "frac"@[3] == 'c'
    &&& "dfrac"@.len() == 5
    &&& "dfrac"@[0] == 'd' && "dfrac"@[1] == 'f' && "dfrac"@[2] == 'r' && "dfrac"@[3] == 'a' && "dfrac"@[4] == 'c'
    &&& "tfrac"@.len() == 5
    &&& "tfrac"@[0] == 't' && "tfrac"@[1] == 'f' && "tfrac"@[2] == 'r' && "tfrac"@[3] == 'a' && "tfrac"@[4] == 'c'
    &&& "sqrt"@.len() == 4
    &&& "sqrt"@[0] == 's' && "sqrt"@[1] == 'q' && "sqrt"@[2] == 'r' && "sqrt"@[3] == 't'
    &&& "operatorname"@.len() == 12
    &&& "operatorname"@[0] == 'o' && "operatorname"@[1] == 'p' && "operatorname"@[2] == 'e' && "operatorname"@[3] == 'r' && "operatorname"@[4] == 'a' && "operatorname"@[5] == 't' && "operatorname"@[6] == 'o' && "operatorname"@[7] == 'r' && "operatorname"@[8] == 'n' && "operatorname"@[9] == 'a' && "operatorname"@[10] == 'm' && "operatorname"@[11] == 'e'
    &&& "text"@.len() == 4
    &&& "text"@[0] == 't' && "text"@[1] == 'e' && "text"@[2] == 'x' && "text"@[3] == 't'
    &&& "mathrm"@.len() == 6
    &&& "mathrm"@[0] == 'm' && "mathrm"@[1] == 'a' && "mathrm"@[2] == 't' && "mathrm"@[3] == 'h' && "mathrm"@[4] == 'r' && "mathrm"@[5] == 'm'
    &&& "mathbf"@.len() == 6
    &&& "mathbf"@[0] == 'm' && "mathbf"@[1] == 'a' && "mathbf"@[2] == 't' && "mathbf"@[3] == 'h' && "mathbf"@[4] == 'b' && "mathbf"@[5] == 'f'
    &&& "mathit"@.len() == 6
    &&& "mathit"@[0] == 'm' && "mathit"@[1] == 'a' && "mathit"@[2] == 't' && "mathit"@[3] == 'h' && "mathit"@[4] == 'i' && "mathit"@[5] == 't'
    &&& "mathcal"@.len() == 7
    &&& "mathcal"@[0] == 'm' && "mathcal"@[1] == 'a' && "mathcal"@[2] == 't' && "mathcal"@[3] == 'h' && "mathcal"@[4] == 'c' && "mathcal"@[5] == 'a' && "mathcal"@[6] == 'l'
    &&& "mathbb"@.len() == 6
    &&& "mathbb"@[0] == 'm' && "mathbb"@[1] == 'a' && "mathbb"@[2] == 't' && "mathbb"@[3] == 'h' && "mathbb"@[4] == 'b' && "mathbb"@[5] == 'b'
    &&& "mathsf"@.len() == 6
    &&& "mathsf"@[0] == 'm' && "mathsf"@[1] == 'a' && "mathsf"@[2] == 't' && "mathsf"@[3] == 'h' && "mathsf"@[4] == 's' && "mathsf"@[5] == 'f'
    &&& "boldsymbol"@.len() == 10
    &&& "boldsymbol"@[0] == 'b' && "boldsymbol"@[1] == 'o' && "boldsymbol"@[2] == 'l' && "boldsymbol"@[3] == 'd' && "boldsymbol"@[4] == 's' && "boldsymbol"@[5] == 'y' && "boldsymbol"@[6] == 'm' && "boldsymbol"@[7] == 'b' && "boldsymbol"@[8] == 'o' && "boldsymbol"@[9] == 'l'
    &&& "mbox"@.len() == 4
    &&& "mbox"@[0] == 'm' && "mbox"@[1] == 'b' && "mbox"@[2] == 'o' && "mbox"@[3] == 'x'
    &&& "left"@.len() == 4
    &&& "left"@[0] == 'l' && "left"@[1] == 'e' && "left"@[2] == 'f' && "left"@[3] == 't'
    &&& "right"@.len() == 5
    &&& "right"@[0] == 'r' && "right"@[1] == 'i' && "right"@[2] == 'g' && "right"@[3] == 'h' && "right"@[4] == 't'
    &&& "big"@.len() == 3
    &&& "big"@[0] == 'b' && "big"@[1] == 'i' && "big"@[2] == 'g'
    &&& "Big"@.len() == 3
    &&& "Big"@[0] == 'B' && "Big"@[1] == 'i' && "Big"@[2] == 'g'
    &&& "bigl"@.len() == 4
    &&& "bigl"@[0] == 'b' && "bigl"@[1] == 'i' && "bigl"@[2] == 'g' && "bigl"@[3] == 'l'
    &&& "bigr"@.len() == 4
    &&& "bigr"@[0] == 'b' && "bigr"@[1] == 'i' && "bigr"@[2] == 'g' && "bigr"@[3] == 'r'
    &&& "displaystyle"@.len() == 12
    &&& "displaystyle"@[0] == 'd' && "displaystyle"@[1] == 'i' && "displaystyle"@[2] == 's' && "displaystyle"@[3] == 'p' && "displaystyle"@[4] == 'l' && "displaystyle"@[5] == 'a' && "displaystyle"@[6] == 'y' && "displaystyle"@[7] == 's' && "displaystyle"@[8] == 't' && "displaystyle"@[9] == 'y' && "displaystyle"@[10] == 'l' && "displaystyle"@[11] == 'e'
    &&& "limits"@.len() == 6
    &&& "limits"@[0] == 'l' && "limits"@[1] == 'i' && "limits"@[2] == 'm' && "limits"@[3] == 'i' && "limits"@[4] == 't' && "limits"@[5] == 's'
    &&& "quad"@.len() == 4
    &&& "quad"@[0] == 'q' && "quad"@[1] == 'u' && "quad"@[2] == 'a' && "quad"@[3] == 'd'
    &&& "qquad"@.len() == 5
    &&& "qquad"@[0] == 'q' && "qquad"@[1] == 'q' && "qquad"@[2] == 'u' && "qquad"@[3] == 'a' && "qquad"@[4] == 'd'
    &&& "|"@.len() == 1
    &&& "|"@[0] == '|'
}

proof fn lemma_spellings()
    ensures
        spellings(),
{
    reveal_strlit("alpha");
    reveal_strlit("beta");
    reveal_strlit("gamma");
    reveal_strlit("delta");
    reveal_strlit("epsilon");
    reveal_strlit("varepsilon");
    reveal_strlit("zeta");
    reveal_strlit("eta");
    reveal_strlit("theta");
    reveal_strlit("vartheta");
    reveal_strlit("iota");
    reveal_strlit("kappa");
    reveal_strlit("lambda");
    reveal_strlit("mu");
    reveal_strlit("nu");
    reveal_strlit("xi");
    reveal_strlit("pi");
    reveal_strlit("rho");
    reveal_strlit("sigma");
    reveal_strlit("tau");
    reveal_strlit("upsilon");
    reveal_strlit("phi");
    reveal_strlit("varphi");
    reveal_strlit("chi");
    reveal_strlit("psi");
    reveal_strlit("omega");
    reveal_strlit("Gamma");
    reveal_strlit("Delta");
    reveal_strlit("Theta");
    reveal_strlit("Lambda");
    reveal_strlit("Xi");
    reveal_strlit("Pi");
    reveal_strlit("Sigma");
    reveal_strlit("Upsilon");
    reveal_strlit("Phi");
    reveal_strlit("Psi");
    reveal_strlit("Omega");
    reveal_strlit("infty");
    reveal_strlit("partial");
    reveal_strlit("nabla");
    reveal_strlit("pm");
    reveal_strlit("mp");
    reveal_strlit("times");
    reveal_strlit("div");
    reveal_strlit("cdot");
    reveal_strlit("bullet");
    reveal_strlit("circ");
    reveal_strlit("approx");
    reveal_strlit("neq");
    reveal_strlit("ne");
    reveal_strlit("leq");
    reveal_strlit("le");
    reveal_strlit("geq");
    reveal_strlit("ge");
    reveal_strlit("ll");
    reveal_strlit("gg");
    reveal_strlit("sim");
    reveal_strlit("simeq");
    reveal_strlit("equiv");
    reveal_strlit("propto");
    reveal_strlit("to");
    reveal_strlit("gets");
    reveal_strlit("mapsto");
    reveal_strlit("Rightarrow");
    reveal_strlit("Leftarrow");
    reveal_strlit("Leftrightarrow");
    reveal_strlit("rightarrow");
    reveal_strlit("leftarrow");
    reveal_strlit("leftrightarrow");
    reveal_strlit("uparrow");
    reveal_strlit("downarrow");
    reveal_strlit("in");
    reveal_strlit("notin");
    reveal_strlit("ni");
    reveal_strlit("subset");
    reveal_strlit("supset");
    reveal_strlit("subseteq");
    reveal_strlit("supseteq");
    reveal_strlit("cup");
    reveal_strlit("cap");
    reveal_strlit("emptyset");
    reveal_strlit("varnothing");
    reveal_strlit("setminus");
    reveal_strlit("forall");
    reveal_strlit("exists");
    reveal_strlit("nexists");
    reveal_strlit("neg");
    reveal_strlit("lnot");
    reveal_strlit("land");
    reveal_strlit("wedge");
    reveal_strlit("lor");
    reveal_strlit("vee");
    reveal_strlit("sum");
    reveal_strlit("prod");
    reveal_strlit("int");
    reveal_strlit("iint");
    reveal_strlit("iiint");
    reveal_strlit("oint");
    reveal_strlit("bigcup");
    reveal_strlit("bigcap");
    reveal_strlit("sin");
    reveal_strlit("cos");
    reveal_strlit("tan");
    reveal_strlit("log");
    reveal_strlit("ln");
    reveal_strlit("exp");
    reveal_strlit("lim");
    reveal_strlit("max");
    reveal_strlit("min");
    reveal_strlit("sup");
    reveal_strlit("inf");
    reveal_strlit("arg");
    reveal_strlit("det");
    reveal_strlit("gcd");
    reveal_strlit("mod");
    reveal_strlit("bmod");
    reveal_strlit("pmod");
    reveal_strlit("ldots");
    reveal_strlit("cdots");
    reveal_strlit("dots");
    reveal_strlit("vdots");
    reveal_strlit("ddots");
    reveal_strlit("prime");
    reveal_strlit("dagger");
    reveal_strlit("ddagger");
    reveal_strlit("star");
    reveal_strlit("ast");
    reveal_strlit("oplus");
    reveal_strlit("otimes");
    reveal_strlit("ominus");
    reveal_strlit("odot");
    reveal_strlit("perp");
    reveal_strlit("parallel");
    reveal_strlit("angle");
    reveal_strlit("triangle");
    reveal_strlit("top");
    reveal_strlit("bot");
    reveal_strlit("vdash");
    reveal_strlit("dashv");
    reveal_strlit("models");
    reveal_strlit("hbar");
    reveal_strlit("ell");
    reveal_strlit("Re");
    reveal_strlit("Im");
    reveal_strlit("aleph");
    reveal_strlit("wp");
    reveal_strlit("degree");
    reveal_strlit("prec");
    reveal_strlit("succ");
    reveal_strlit("langle");
    reveal_strlit("rangle");
    reveal_strlit("lceil");
    reveal_strlit("rceil");
    reveal_strlit("lfloor");
    reveal_strlit("rfloor");
    reveal_strlit("colon");
    reveal_strlit("frac");
    reveal_strlit("dfrac");
    reveal_strlit("tfrac");
    reveal_strlit("sqrt");
    reveal_strlit("operatorname");
    reveal_strlit("text");
    reveal_strlit("mathrm");
    reveal_strlit("mathbf");
    reveal_strlit("mathit");
    reveal_strlit("mathcal");
    reveal_strlit("mathbb");
    reveal_strlit("mathsf");
    reveal_strlit("boldsymbol");
    reveal_strlit("mbox");
    reveal_strlit("left");
    reveal_strlit("right");
    reveal_strlit("big");
    reveal_strlit("Big");
    reveal_strlit("bigl");
    reveal_strlit("bigr");
    reveal_strlit("displaystyle");
    reveal_strlit("limits");
    reveal_strlit("quad");
    reveal_strlit("qquad");
    reveal_strlit("|");
}

proof fn lemma_small_greek_letters()
    ensures
        stands_for("alpha"@, "α"@),
        stands_for("beta"@, "β"@),
        stands_for("gamma"@, "γ"@),
        stands_for("delta"@, "δ"@),
        stands_for("epsilon"@, "ε"@),
        stands_for("varepsilon"@, "ε"@),
        stands_for("zeta"@, "ζ"@),
        stands_for("eta"@, "η"@),
        stands_for("theta"@, "θ"@),
        stands_for("vartheta"@, "ϑ"@),
        stands_for("iota"@, "ι"@),
        stands_for("kappa"@, "κ"@),
        stands_for("lambda"@, "λ"@),
        stands_for("mu"@, "μ"@),
{
    lemma_spellings();
}

proof fn lemma_small_greek_letters_more()
    ensures
        stands_for("nu"@, "ν"@),
        stands_for("xi"@, "ξ"@),
        stands_for("pi"@, "π"@),
        stands_for("rho"@, "ρ"@),
        stands_for("sigma"@, "σ"@),
        stands_for("tau"@, "τ"@),
        stands_for("upsilon"@, "υ"@),
        stands_for("phi"@, "φ"@),
        stands_for("varphi"@, "φ"@),
        stands_for("chi"@, "χ"@),
        stands_for("psi"@, "ψ"@),
        stands_for("omega"@, "ω"@),
{
    lemma_spellings();
}

/// Every command for a small Greek letter gives that letter.
pub proof fn law_small_greek_letters()
    ensures
        formula_text("\\alpha"@) == "α"@,
        formula_text("\\beta"@) == "β"@,
        formula_text("\\gamma"@) == "γ"@,
        formula_text("\\delta"@) == "δ"@,
        formula_text("\\epsilon"@) == "ε"@,
        formula_text("\\varepsilon"@) == "ε"@,
        formula_text("\\zeta"@) == "ζ"@,
        formula_text("\\eta"@) == "η"@,
        formula_text("\\theta"@) == "θ"@,
        formula_text("\\vartheta"@) == "ϑ"@,
        formula_text("\\iota"@) == "ι"@,
        formula_text("\\kappa"@) == "κ"@,
        formula_text("\\lambda"@) == "λ"@,
        formula_text("\\mu"@) == "μ"@,
        formula_text("\\nu"@) == "ν"@,
        formula_text("\\xi"@) == "ξ"@,
        formula_text("\\pi"@) == "π"@,
        formula_text("\\rho"@) == "ρ"@,
        formula_text("\\sigma"@) == "σ"@,
        formula_text("\\tau"@) == "τ"@,
        formula_text("\\upsilon"@) == "υ"@,
        formula_text("\\phi"@) == "φ"@,
        formula_text("\\varphi"@) == "φ"@,
        formula_text("\\chi"@) == "χ"@,
        formula_text("\\psi"@) == "ψ"@,
        formula_text("\\omega"@) == "ω"@,
{
    lemma_spellings();
    lemma_small_greek_letters();
    lemma_small_greek_letters_more();
    reveal_strlit("\\alpha");
    reveal_strlit("α");
    lemma_shown("\\alpha"@, "alpha"@, "α"@);
    reveal_strlit("\\beta");
    reveal_strlit("β");
    lemma_shown("\\beta"@, "beta"@, "β"@);
    reveal_strlit("\\gamma");
    reveal_strlit("γ");
    lemma_shown("\\gamma"@, "gamma"@, "γ"@);
    reveal_strlit("\\delta");
    reveal_strlit("δ");
    lemma_shown("\\delta"@, "delta"@, "δ"@);
    reveal_strlit("\\epsilon");
    reveal_strlit("ε");
    lemma_shown("\\epsilon"@, "epsilon"@, "ε"@);
    reveal_strlit("\\varepsilon");
    reveal_strlit("ε");
    lemma_shown("\\varepsilon"@, "varepsilon"@, "ε"@);
    reveal_strlit("\\zeta");
    reveal_strlit("ζ");
    lemma_shown("\\zeta"@, "zeta"@, "ζ"@);
    reveal_strlit("\\eta");
    reveal_strlit("η");
    lemma_shown("\\eta"@, "eta"@, "η"@);
    reveal_strlit("\\theta");
    reveal_strlit("θ");
    lemma_shown("\\theta"@, "theta"@, "θ"@);
    reveal_strlit("\\vartheta");
    reveal_strlit("ϑ");
    lemma_shown("\\vartheta"@, "vartheta"@, "ϑ"@);
    reveal_strlit("\\iota");
    reveal_strlit("ι");
    lemma_shown("\\iota"@, "iota"@, "ι"@);
    reveal_strlit("\\kappa");
    reveal_strlit("κ");
    lemma_shown("\\kappa"@, "kappa"@, "κ"@);
    reveal_strlit("\\lambda");
    reveal_strlit("λ");
    lemma_shown("\\lambda"@, "lambda"@, "λ"@);
    reveal_strlit("\\mu");
    reveal_strlit("μ");
    lemma_shown("\\mu"@, "mu"@, "μ"@);
    reveal_strlit("\\nu");
    reveal_strlit("ν");
    lemma_shown("\\nu"@, "nu"@, "ν"@);
    reveal_strlit("\\xi");
    reveal_strlit("ξ");
    lemma_shown("\\xi"@, "xi"@, "ξ"@);
    reveal_strlit("\\pi");
    reveal_strlit("π");
    lemma_shown("\\pi"@, "pi"@, "π"@);
    reveal_strlit("\\rho");
    reveal_strlit("ρ");
    lemma_shown("\\rho"@, "rho"@, "ρ"@);
    reveal_strlit("\\sigma");
    reveal_strlit("σ");
    lemma_shown("\\sigma"@, "sigma"@, "σ"@);
    reveal_strlit("\\tau");
    reveal_strlit("τ");
    lemma_shown("\\tau"@, "tau"@, "τ"@);
    reveal_strlit("\\upsilon");
    reveal_strlit("υ");
    lemma_shown("\\upsilon"@, "upsilon"@, "υ"@);
    reveal_strlit("\\phi");
    reveal_strlit("φ");
    lemma_shown("\\phi"@, "phi"@, "φ"@);
    reveal_strlit("\\varphi");
    reveal_strlit("φ");
    lemma_shown("\\varphi"@, "varphi"@, "φ"@);
    reveal_strlit("\\chi");
    reveal_strlit("χ");
    lemma_shown("\\chi"@, "chi"@, "χ"@);
    reveal_strlit("\\psi");
    reveal_strlit("ψ");
    lemma_shown("\\psi"@, "psi"@, "ψ"@);
    reveal_strlit("\\omega");
    reveal_strlit("ω");
    lemma_shown("\\omega"@, "omega"@, "ω"@);
}

proof fn lemma_capital_greek_letters()
    ensures
        stands_for("Gamma"@, "Γ"@),
        stands_for("Delta"@, "Δ"@),
        stands_for("Theta"@, "Θ"@),
        stands_for("Lambda"@, "Λ"@),
        stands_for("Xi"@, "Ξ"@),
        stands_for("Pi"@, "Π"@),
        stands_for("Sigma"@, "Σ"@),
        stands_for("Upsilon"@, "Υ"@),
        stands_for("Phi"@, "Φ"@),
        stands_for("Psi"@, "Ψ"@),
        stands_for("Omega"@, "Ω"@),
{
    lemma_spellings();
}

/// Every command for a capital Greek letter gives that letter.
pub proof fn law_capital_greek_letters()
    ensures
        formula_text("\\Gamma"@) == "Γ"@,
        formula_text("\\Delta"@) == "Δ"@,
        formula_text("\\Theta"@) == "Θ"@,
        formula_text("\\Lambda"@) == "Λ"@,
        formula_text("\\Xi"@) == "Ξ"@,
        formula_text("\\Pi"@) == "Π"@,
        formula_text("\\Sigma"@) == "Σ"@,
        formula_text("\\Upsilon"@) == "Υ"@,
        formula_text("\\Phi"@) == "Φ"@,
        formula_text("\\Psi"@) == "Ψ"@,
        formula_text("\\Omega"@) == "Ω"@,
{
    lemma_spellings();
    lemma_capital_greek_letters();
    reveal_strlit("\\Gamma");
    reveal_strlit("Γ");
    lemma_shown("\\Gamma"@, "Gamma"@, "Γ"@);
    reveal_strlit("\\Delta");
    reveal_strlit("Δ");
    lemma_shown("\\Delta"@, "Delta"@, "Δ"@);
    reveal_strlit("\\Theta");
    reveal_strlit("Θ");
    lemma_shown("\\Theta"@, "Theta"@, "Θ"@);
    reveal_strlit("\\Lambda");
    reveal_strlit("Λ");
    lemma_shown("\\Lambda"@, "Lambda"@, "Λ"@);
    reveal_strlit("\\Xi");
    reveal_strlit("Ξ");
    lemma_shown("\\Xi"@, "Xi"@, "Ξ"@);
    reveal_strlit("\\Pi");
    reveal_strlit("Π");
    lemma_shown("\\Pi"@, "Pi"@, "Π"@);
    reveal_strlit("\\Sigma");
    reveal_strlit("Σ");
    lemma_shown("\\Sigma"@, "Sigma"@, "Σ"@);
    reveal_strlit("\\Upsilon");
    reveal_strlit("Υ");
    lemma_shown("\\Upsilon"@, "Upsilon"@, "Υ"@);
    reveal_strlit("\\Phi");
    reveal_strlit("Φ");
    lemma_shown("\\Phi"@, "Phi"@, "Φ"@);
    reveal_strlit("\\Psi");
    reveal_strlit("Ψ");
    lemma_shown("\\Psi"@, "Psi"@, "Ψ"@);
    reveal_strlit("\\Omega");
    reveal_strlit("Ω");
    lemma_shown("\\Omega"@, "Omega"@, "Ω"@);
}

proof fn lemma_relations()
    ensures
        stands_for("approx"@, "≈"@),
        stands_for("neq"@, "≠"@),
        stands_for("ne"@, "≠"@),
        stands_for("leq"@, "≤"@),
        stands_for("le"@, "≤"@),
        stands_for("geq"@, "≥"@),
        stands_for("ge"@, "≥"@),
        stands_for("ll"@, "≪"@),
        stands_for("gg"@, "≫"@),
        stands_for("sim"@, "∼"@),
        stands_for("simeq"@, "≃"@),
        stands_for("equiv"@, "≡"@),
        stands_for("propto"@, "∝"@),
        stands_for("prec"@, "≺"@),
{
    lemma_spellings();
}

proof fn lemma_relations_more()
    ensures
        stands_for("succ"@, "≻"@),
        stands_for("perp"@, "⊥"@),
        stands_for("parallel"@, "∥"@),
        stands_for("vdash"@, "⊢"@),
        stands_for("dashv"@, "⊣"@),
        stands_for("models"@, "⊨"@),
{
    lemma_spellings();
}

/// Every command for a relation gives its sign, and no relation is turned round.
pub proof fn law_relations()
    ensures
        formula_text("\\approx"@) == "≈"@,
        formula_text("\\neq"@) == "≠"@,
        formula_text("\\ne"@) == "≠"@,
        formula_text("\\leq"@) == "≤"@,
        formula_text("\\le"@) == "≤"@,
        formula_text("\\geq"@) == "≥"@,
        formula_text("\\ge"@) == "≥"@,
        formula_text("\\ll"@) == "≪"@,
        formula_text("\\gg"@) == "≫"@,
        formula_text("\\sim"@) == "∼"@,
        formula_text("\\simeq"@) == "≃"@,
        formula_text("\\equiv"@) == "≡"@,
        formula_text("\\propto"@) == "∝"@,
        formula_text("\\prec"@) == "≺"@,
        formula_text("\\succ"@) == "≻"@,
        formula_text("\\perp"@) == "⊥"@,
        formula_text("\\parallel"@) == "∥"@,
        formula_text("\\vdash"@) == "⊢"@,
        formula_text("\\dashv"@) == "⊣"@,
        formula_text("\\models"@) == "⊨"@,
{
    lemma_spellings();
    lemma_relations();
    lemma_relations_more();
    reveal_strlit("\\approx");
    reveal_strlit("≈");
    lemma_shown("\\approx"@, "approx"@, "≈"@);
    reveal_strlit("\\neq");
    reveal_strlit("≠");
    lemma_shown("\\neq"@, "neq"@, "≠"@);
    reveal_strlit("\\ne");
    reveal_strlit("≠");
    lemma_shown("\\ne"@, "ne"@, "≠"@);
    reveal_strlit("\\leq");
    reveal_strlit("≤");
    lemma_shown("\\leq"@, "leq"@, "≤"@);
    reveal_strlit("\\le");
    reveal_strlit("≤");
    lemma_shown("\\le"@, "le"@, "≤"@);
    reveal_strlit("\\geq");
    reveal_strlit("≥");
    lemma_shown("\\geq"@, "geq"@, "≥"@);
    reveal_strlit("\\ge");
    reveal_strlit("≥");
    lemma_shown("\\ge"@, "ge"@, "≥"@);
    reveal_strlit("\\ll");
    reveal_strlit("≪");
    lemma_shown("\\ll"@, "ll"@, "≪"@);
    reveal_strlit("\\gg");
    reveal_strlit("≫");
    lemma_shown("\\gg"@, "gg"@, "≫"@);
    reveal_strlit("\\sim");
    reveal_strlit("∼");
    lemma_shown("\\sim"@, "sim"@, "∼"@);
    reveal_strlit("\\simeq");
    reveal_strlit("≃");
    lemma_shown("\\simeq"@, "simeq"@, "≃"@);
    reveal_strlit("\\equiv");
    reveal_strlit("≡");
    lemma_shown("\\equiv"@, "equiv"@, "≡"@);
    reveal_strlit("\\propto");
    reveal_strlit("∝");
    lemma_shown("\\propto"@, "propto"@, "∝"@);
    reveal_strlit("\\prec");
    reveal_strlit("≺");
    lemma_shown("\\prec"@, "prec"@, "≺"@);
    reveal_strlit("\\succ");
    reveal_strlit("≻");
    lemma_shown("\\succ"@, "succ"@, "≻"@);
    reveal_strlit("\\perp");
    reveal_strlit("⊥");
    lemma_shown("\\perp"@, "perp"@, "⊥"@);
    reveal_strlit("\\parallel");
    reveal_strlit("∥");
    lemma_shown("\\parallel"@, "parallel"@, "∥"@);
    reveal_strlit("\\vdash");
    reveal_strlit("⊢");
    lemma_shown("\\vdash"@, "vdash"@, "⊢"@);
    reveal_strlit("\\dashv");
    reveal_strlit("⊣");
    lemma_shown("\\dashv"@, "dashv"@, "⊣"@);
    reveal_strlit("\\models");
    reveal_strlit("⊨");
    lemma_shown("\\models"@, "models"@, "⊨"@);
}

proof fn lemma_arrows()
    ensures
        stands_for("to"@, "→"@),
        stands_for("gets"@, "←"@),
        stands_for("mapsto"@, "↦"@),
        stands_for("Rightarrow"@, "⇒"@),
        stands_for("Leftarrow"@, "⇐"@),
        stands_for("Leftrightarrow"@, "⇔"@),
        stands_for("rightarrow"@, "→"@),
        stands_for("leftarrow"@, "←"@),
        stands_for("leftrightarrow"@, "↔"@),
        stands_for("uparrow"@, "↑"@),
        stands_for("downarrow"@, "↓"@),
{
    lemma_spellings();
}

/// Every command for an arrow gives one that points that way.
pub proof fn law_arrows()
    ensures
        formula_text("\\to"@) == "→"@,
        formula_text("\\gets"@) == "←"@,
        formula_text("\\mapsto"@) == "↦"@,
        formula_text("\\Rightarrow"@) == "⇒"@,
        formula_text("\\Leftarrow"@) == "⇐"@,
        formula_text("\\Leftrightarrow"@) == "⇔"@,
        formula_text("\\rightarrow"@) == "→"@,
        formula_text("\\leftarrow"@) == "←"@,
        formula_text("\\leftrightarrow"@) == "↔"@,
        formula_text("\\uparrow"@) == "↑"@,
        formula_text("\\downarrow"@) == "↓"@,
{
    lemma_spellings();
    lemma_arrows();
    reveal_strlit("\\to");
    reveal_strlit("→");
    lemma_shown("\\to"@, "to"@, "→"@);
    reveal_strlit("\\gets");
    reveal_strlit("←");
    lemma_shown("\\gets"@, "gets"@, "←"@);
    reveal_strlit("\\mapsto");
    reveal_strlit("↦");
    lemma_shown("\\mapsto"@, "mapsto"@, "↦"@);
    reveal_strlit("\\Rightarrow");
    reveal_strlit("⇒");
    lemma_shown("\\Rightarrow"@, "Rightarrow"@, "⇒"@);
    reveal_strlit("\\Leftarrow");
    reveal_strlit("⇐");
    lemma_shown("\\Leftarrow"@, "Leftarrow"@, "⇐"@);
    reveal_strlit("\\Leftrightarrow");
    reveal_strlit("⇔");
    lemma_shown("\\Leftrightarrow"@, "Leftrightarrow"@, "⇔"@);
    reveal_strlit("\\rightarrow");
    reveal_strlit("→");
    lemma_shown("\\rightarrow"@, "rightarrow"@, "→"@);
    reveal_strlit("\\leftarrow");
    reveal_strlit("←");
    lemma_shown("\\leftarrow"@, "leftarrow"@, "←"@);
    reveal_strlit("\\leftrightarrow");
    reveal_strlit("↔");
    lemma_shown("\\leftrightarrow"@, "leftrightarrow"@, "↔"@);
    reveal_strlit("\\uparrow");
    reveal_strlit("↑");
    lemma_shown("\\uparrow"@, "uparrow"@, "↑"@);
    reveal_strlit("\\downarrow");
    reveal_strlit("↓");
    lemma_shown("\\downarrow"@, "downarrow"@, "↓"@);
}

proof fn lemma_sets()
    ensures
        stands_for("in"@, "∈"@),
        stands_for("notin"@, "∉"@),
        stands_for("ni"@, "∋"@),
        stands_for("subset"@, "⊂"@),
        stands_for("supset"@, "⊃"@),
        stands_for("subseteq"@, "⊆"@),
        stands_for("supseteq"@, "⊇"@),
        stands_for("cup"@, "∪"@),
        stands_for("cap"@, "∩"@),
        stands_for("emptyset"@, "∅"@),
        stands_for("varnothing"@, "∅"@),
        stands_for("setminus"@, "∖"@),
        stands_for("bigcup"@, "⋃"@),
        stands_for("bigcap"@, "⋂"@),
{
    lemma_spellings();
}

/// Every command for sets gives its sign.
pub proof fn law_sets()
    ensures
        formula_text("\\in"@) == "∈"@,
        formula_text("\\notin"@) == "∉"@,
        formula_text("\\ni"@) == "∋"@,
        formula_text("\\subset"@) == "⊂"@,
        formula_text("\\supset"@) == "⊃"@,
        formula_text("\\subseteq"@) == "⊆"@,
        formula_text("\\supseteq"@) == "⊇"@,
        formula_text("\\cup"@) == "∪"@,
        formula_text("\\cap"@) == "∩"@,
        formula_text("\\emptyset"@) == "∅"@,
        formula_text("\\varnothing"@) == "∅"@,
        formula_text("\\setminus"@) == "∖"@,
        formula_text("\\bigcup"@) == "⋃"@,
        formula_text("\\bigcap"@) == "⋂"@,
{
    lemma_spellings();
    lemma_sets();
    reveal_strlit("\\in");
    reveal_strlit("∈");
    lemma_shown("\\in"@, "in"@, "∈"@);
    reveal_strlit("\\notin");
    reveal_strlit("∉");
    lemma_shown("\\notin"@, "notin"@, "∉"@);
    reveal_strlit("\\ni");
    reveal_strlit("∋");
    lemma_shown("\\ni"@, "ni"@, "∋"@);
    reveal_strlit("\\subset");
    reveal_strlit("⊂");
    lemma_shown("\\subset"@, "subset"@, "⊂"@);
    reveal_strlit("\\supset");
    reveal_strlit("⊃");
    lemma_shown("\\supset"@, "supset"@, "⊃"@);
    reveal_strlit("\\subseteq");
    reveal_strlit("⊆");
    lemma_shown("\\subseteq"@, "subseteq"@, "⊆"@);
    reveal_strlit("\\supseteq");
    reveal_strlit("⊇");
    lemma_shown("\\supseteq"@, "supseteq"@, "⊇"@);
    reveal_strlit("\\cup");
    reveal_strlit("∪");
    lemma_shown("\\cup"@, "cup"@, "∪"@);
    reveal_strlit("\\cap");
    reveal_strlit("∩");
    lemma_shown("\\cap"@, "cap"@, "∩"@);
    reveal_strlit("\\emptyset");
    reveal_strlit("∅");
    lemma_shown("\\emptyset"@, "emptyset"@, "∅"@);
    reveal_strlit("\\varnothing");
    reveal_strlit("∅");
    lemma_shown("\\varnothing"@, "varnothing"@, "∅"@);
    reveal_strlit("\\setminus");
    reveal_strlit("∖");
    lemma_shown("\\setminus"@, "setminus"@, "∖"@);
    reveal_strlit("\\bigcup");
    reveal_strlit("⋃");
    lemma_shown("\\bigcup"@, "bigcup"@, "⋃"@);
    reveal_strlit("\\bigcap");
    reveal_strlit("⋂");
    lemma_shown("\\bigcap"@, "bigcap"@, "⋂"@);
}

proof fn lemma_logic()
    ensures
        stands_for("forall"@, "∀"@),
        stands_for("exists"@, "∃"@),
        stands_for("nexists"@, "∄"@),
        stands_for("neg"@, "¬"@),
        stands_for("lnot"@, "¬"@),
        stands_for("land"@, "∧"@),
        stands_for("wedge"@, "∧"@),
        stands_for("lor"@, "∨"@),
        stands_for("vee"@, "∨"@),
        stands_for("top"@, "⊤"@),
        stands_for("bot"@, "⊥"@),
{
    lemma_spellings();
}

/// Every command of logic gives its sign.
pub proof fn law_logic()
    ensures
        formula_text("\\forall"@) == "∀"@,
        formula_text("\\exists"@) == "∃"@,
        formula_text("\\nexists"@) == "∄"@,
        formula_text("\\neg"@) == "¬"@,
        formula_text("\\lnot"@) == "¬"@,
        formula_text("\\land"@) == "∧"@,
        formula_text("\\wedge"@) == "∧"@,
        formula_text("\\lor"@) == "∨"@,
        formula_text("\\vee"@) == "∨"@,
        formula_text("\\top"@) == "⊤"@,
        formula_text("\\bot"@) == "⊥"@,
{
    lemma_spellings();
    lemma_logic();
    reveal_strlit("\\forall");
    reveal_strlit("∀");
    lemma_shown("\\forall"@, "forall"@, "∀"@);
    reveal_strlit("\\exists");
    reveal_strlit("∃");
    lemma_shown("\\exists"@, "exists"@, "∃"@);
    reveal_strlit("\\nexists");
    reveal_strlit("∄");
    lemma_shown("\\nexists"@, "nexists"@, "∄"@);
    reveal_strlit("\\neg");
    reveal_strlit("¬");
    lemma_shown("\\neg"@, "neg"@, "¬"@);
    reveal_strlit("\\lnot");
    reveal_strlit("¬");
    lemma_shown("\\lnot"@, "lnot"@, "¬"@);
    reveal_strlit("\\land");
    reveal_strlit("∧");
    lemma_shown("\\land"@, "land"@, "∧"@);
    reveal_strlit("\\wedge");
    reveal_strlit("∧");
    lemma_shown("\\wedge"@, "wedge"@, "∧"@);
    reveal_strlit("\\lor");
    reveal_strlit("∨");
    lemma_shown("\\lor"@, "lor"@, "∨"@);
    reveal_strlit("\\vee");
    reveal_strlit("∨");
    lemma_shown("\\vee"@, "vee"@, "∨"@);
    reveal_strlit("\\top");
    reveal_strlit("⊤");
    lemma_shown("\\top"@, "top"@, "⊤"@);
    reveal_strlit("\\bot");
    reveal_strlit("⊥");
    lemma_shown("\\bot"@, "bot"@, "⊥"@);
}

proof fn lemma_operations()
    ensures
        stands_for("infty"@, "∞"@),
        stands_for("partial"@, "∂"@),
        stands_for("nabla"@, "∇"@),
        stands_for("pm"@, "±"@),
        stands_for("mp"@, "∓"@),
        stands_for("times"@, "×"@),
        stands_for("div"@, "÷"@),
        stands_for("cdot"@, "·"@),
        stands_for("bullet"@, "•"@),
        stands_for("circ"@, "∘"@),
        stands_for("star"@, "⋆"@),
        stands_for("ast"@, "*"@),
        stands_for("oplus"@, "⊕"@),
        stands_for("otimes"@, "⊗"@),
{
    lemma_spellings();
}

proof fn lemma_operations_more()
    ensures
        stands_for("ominus"@, "⊖"@),
        stands_for("odot"@, "⊙"@),
        stands_for("dagger"@, "†"@),
        stands_for("ddagger"@, "‡"@),
        stands_for("prime"@, "′"@),
        stands_for("degree"@, "°"@),
{
    lemma_spellings();
}

/// Every command for an operation gives its sign.
pub proof fn law_operations()
    ensures
        formula_text("\\infty"@) == "∞"@,
        formula_text("\\partial"@) == "∂"@,
        formula_text("\\nabla"@) == "∇"@,
        formula_text("\\pm"@) == "±"@,
        formula_text("\\mp"@) == "∓"@,
        formula_text("\\times"@) == "×"@,
        formula_text("\\div"@) == "÷"@,
        formula_text("\\cdot"@) == "·"@,
        formula_text("\\bullet"@) == "•"@,
        formula_text("\\circ"@) == "∘"@,
        formula_text("\\star"@) == "⋆"@,
        formula_text("\\ast"@) == "*"@,
        formula_text("\\oplus"@) == "⊕"@,
        formula_text("\\otimes"@) == "⊗"@,
        formula_text("\\ominus"@) == "⊖"@,
        formula_text("\\odot"@) == "⊙"@,
        formula_text("\\dagger"@) == "†"@,
        formula_text("\\ddagger"@) == "‡"@,
        formula_text("\\prime"@) == "′"@,
        formula_text("\\degree"@) == "°"@,
{
    lemma_spellings();
    lemma_operations();
    lemma_operations_more();
    reveal_strlit("\\infty");
    reveal_strlit("∞");
    lemma_shown("\\infty"@, "infty"@, "∞"@);
    reveal_strlit("\\partial");
    reveal_strlit("∂");
    lemma_shown("\\partial"@, "partial"@, "∂"@);
    reveal_strlit("\\nabla");
    reveal_strlit("∇");
    lemma_shown("\\nabla"@, "nabla"@, "∇"@);
    reveal_strlit("\\pm");
    reveal_strlit("±");
    lemma_shown("\\pm"@, "pm"@, "±"@);
    reveal_strlit("\\mp");
    reveal_strlit("∓");
    lemma_shown("\\mp"@, "mp"@, "∓"@);
    reveal_strlit("\\times");
    reveal_strlit("×");
    lemma_shown("\\times"@, "times"@, "×"@);
    reveal_strlit("\\div");
    reveal_strlit("÷");
    lemma_shown("\\div"@, "div"@, "÷"@);
    reveal_strlit("\\cdot");
    reveal_strlit("·");
    lemma_shown("\\cdot"@, "cdot"@, "·"@);
    reveal_strlit("\\bullet");
    reveal_strlit("•");
    lemma_shown("\\bullet"@, "bullet"@, "•"@);
    reveal_strlit("\\circ");
    reveal_strlit("∘");
    lemma_shown("\\circ"@, "circ"@, "∘"@);
    reveal_strlit("\\star");
    reveal_strlit("⋆");
    lemma_shown("\\star"@, "star"@, "⋆"@);
    reveal_strlit("\\ast");
    reveal_strlit("*");
    lemma_shown("\\ast"@, "ast"@, "*"@);
    reveal_strlit("\\oplus");
    reveal_strlit("⊕");
    lemma_shown("\\oplus"@, "oplus"@, "⊕"@);
    reveal_strlit("\\otimes");
    reveal_strlit("⊗");
    lemma_shown("\\otimes"@, "otimes"@, "⊗"@);
    reveal_strlit("\\ominus");
    reveal_strlit("⊖");
    lemma_shown("\\ominus"@, "ominus"@, "⊖"@);
    reveal_strlit("\\odot");
    reveal_strlit("⊙");
    lemma_shown("\\odot"@, "odot"@, "⊙"@);
    reveal_strlit("\\dagger");
    reveal_strlit("†");
    lemma_shown("\\dagger"@, "dagger"@, "†"@);
    reveal_strlit("\\ddagger");
    reveal_strlit("‡");
    lemma_shown("\\ddagger"@, "ddagger"@, "‡"@);
    reveal_strlit("\\prime");
    reveal_strlit("′");
    lemma_shown("\\prime"@, "prime"@, "′"@);
    reveal_strlit("\\degree");
    reveal_strlit("°");
    lemma_shown("\\degree"@, "degree"@, "°"@);
}

proof fn lemma_sums_and_integrals()
    ensures
        stands_for("sum"@, "Σ"@),
        stands_for("prod"@, "Π"@),
        stands_for("int"@, "∫"@),
        stands_for("iint"@, "∬"@),
        stands_for("iiint"@, "∭"@),
        stands_for("oint"@, "∮"@),
        stands_for("ldots"@, "…"@),
        stands_for("cdots"@, "⋯"@),
        stands_for("dots"@, "…"@),
        stands_for("vdots"@, "⋮"@),
        stands_for("ddots"@, "⋱"@),
        stands_for("angle"@, "∠"@),
        stands_for("triangle"@, "△"@),
{
    lemma_spellings();
}

/// Every command for a sum, a product or an integral gives its sign.
pub proof fn law_sums_and_integrals()
    ensures
        formula_text("\\sum"@) == "Σ"@,
        formula_text("\\prod"@) == "Π"@,
        formula_text("\\int"@) == "∫"@,
        formula_text("\\iint"@) == "∬"@,
        formula_text("\\iiint"@) == "∭"@,
        formula_text("\\oint"@) == "∮"@,
        formula_text("\\ldots"@) == "…"@,
        formula_text("\\cdots"@) == "⋯"@,
        formula_text("\\dots"@) == "…"@,
        formula_text("\\vdots"@) == "⋮"@,
        formula_text("\\ddots"@) == "⋱"@,
        formula_text("\\angle"@) == "∠"@,
        formula_text("\\triangle"@) == "△"@,
{
    lemma_spellings();
    lemma_sums_and_integrals();
    reveal_strlit("\\sum");
    reveal_strlit("Σ");
    lemma_shown("\\sum"@, "sum"@, "Σ"@);
    reveal_strlit("\\prod");
    reveal_strlit("Π");
    lemma_shown("\\prod"@, "prod"@, "Π"@);
    reveal_strlit("\\int");
    reveal_strlit("∫");
    lemma_shown("\\int"@, "int"@, "∫"@);
    reveal_strlit("\\iint");
    reveal_strlit("∬");
    lemma_shown("\\iint"@, "iint"@, "∬"@);
    reveal_strlit("\\iiint");
    reveal_strlit("∭");
    lemma_shown("\\iiint"@, "iiint"@, "∭"@);
    reveal_strlit("\\oint");
    reveal_strlit("∮");
    lemma_shown("\\oint"@, "oint"@, "∮"@);
    reveal_strlit("\\ldots");
    reveal_strlit("…");
    lemma_shown("\\ldots"@, "ldots"@, "…"@);
    reveal_strlit("\\cdots");
    reveal_strlit("⋯");
    lemma_shown("\\cdots"@, "cdots"@, "⋯"@);
    reveal_strlit("\\dots");
    reveal_strlit("…");
    lemma_shown("\\dots"@, "dots"@, "…"@);
    reveal_strlit("\\vdots");
    reveal_strlit("⋮");
    lemma_shown("\\vdots"@, "vdots"@, "⋮"@);
    reveal_strlit("\\ddots");
    reveal_strlit("⋱");
    lemma_shown("\\ddots"@, "ddots"@, "⋱"@);
    reveal_strlit("\\angle");
    reveal_strlit("∠");
    lemma_shown("\\angle"@, "angle"@, "∠"@);
    reveal_strlit("\\triangle");
    reveal_strlit("△");
    lemma_shown("\\triangle"@, "triangle"@, "△"@);
}

proof fn lemma_letters_and_brackets()
    ensures
        stands_for("hbar"@, "ℏ"@),
        stands_for("ell"@, "ℓ"@),
        stands_for("Re"@, "ℜ"@),
        stands_for("Im"@, "ℑ"@),
        stands_for("aleph"@, "ℵ"@),
        stands_for("wp"@, "℘"@),
        stands_for("langle"@, "⟨"@),
        stands_for("rangle"@, "⟩"@),
        stands_for("lceil"@, "⌈"@),
        stands_for("rceil"@, "⌉"@),
        stands_for("lfloor"@, "⌊"@),
        stands_for("rfloor"@, "⌋"@),
        stands_for("colon"@, ":"@),
{
    lemma_spellings();
}

/// Every command for a special letter or a bracket gives it, and a bracket opens or closes as
/// its name says.
pub proof fn law_letters_and_brackets()
    ensures
        formula_text("\\hbar"@) == "ℏ"@,
        formula_text("\\ell"@) == "ℓ"@,
        formula_text("\\Re"@) == "ℜ"@,
        formula_text("\\Im"@) == "ℑ"@,
        formula_text("\\aleph"@) == "ℵ"@,
        formula_text("\\wp"@) == "℘"@,
        formula_text("\\langle"@) == "⟨"@,
        formula_text("\\rangle"@) == "⟩"@,
        formula_text("\\lceil"@) == "⌈"@,
        formula_text("\\rceil"@) == "⌉"@,
        formula_text("\\lfloor"@) == "⌊"@,
        formula_text("\\rfloor"@) == "⌋"@,
        formula_text("\\colon"@) == ":"@,
{
    lemma_spellings();
    lemma_letters_and_brackets();
    reveal_strlit("\\hbar");
    reveal_strlit("ℏ");
    lemma_shown("\\hbar"@, "hbar"@, "ℏ"@);
    reveal_strlit("\\ell");
    reveal_strlit("ℓ");
    lemma_shown("\\ell"@, "ell"@, "ℓ"@);
    reveal_strlit("\\Re");
    reveal_strlit("ℜ");
    lemma_shown("\\Re"@, "Re"@, "ℜ"@);
    reveal_strlit("\\Im");
    reveal_strlit("ℑ");
    lemma_shown("\\Im"@, "Im"@, "ℑ"@);
    reveal_strlit("\\aleph");
    reveal_strlit("ℵ");
    lemma_shown("\\aleph"@, "aleph"@, "ℵ"@);
    reveal_strlit("\\wp");
    reveal_strlit("℘");
    lemma_shown("\\wp"@, "wp"@, "℘"@);
    reveal_strlit("\\langle");
    reveal_strlit("⟨");
    lemma_shown("\\langle"@, "langle"@, "⟨"@);
    reveal_strlit("\\rangle");
    reveal_strlit("⟩");
    lemma_shown("\\rangle"@, "rangle"@, "⟩"@);
    reveal_strlit("\\lceil");
    reveal_strlit("⌈");
    lemma_shown("\\lceil"@, "lceil"@, "⌈"@);
    reveal_strlit("\\rceil");
    reveal_strlit("⌉");
    lemma_shown("\\rceil"@, "rceil"@, "⌉"@);
    reveal_strlit("\\lfloor");
    reveal_strlit("⌊");
    lemma_shown("\\lfloor"@, "lfloor"@, "⌊"@);
    reveal_strlit("\\rfloor");
    reveal_strlit("⌋");
    lemma_shown("\\rfloor"@, "rfloor"@, "⌋"@);
    reveal_strlit("\\colon");
    reveal_strlit(":");
    lemma_shown("\\colon"@, "colon"@, ":"@);
}

proof fn lemma_named_functions()
    ensures
        stands_for("sin"@, " sin "@),
        stands_for("cos"@, " cos "@),
        stands_for("tan"@, " tan "@),
        stands_for("log"@, " log "@),
        stands_for("ln"@, " ln "@),
        stands_for("exp"@, " exp "@),
        stands_for("lim"@, " lim "@),
        stands_for("max"@, " max "@),
        stands_for("min"@, " min "@),
        stands_for("sup"@, " sup "@),
        stands_for("inf"@, " inf "@),
        stands_for("arg"@, " arg "@),
        stands_for("det"@, " det "@),
        stands_for("gcd"@, " gcd "@),
{
    lemma_spellings();
}

proof fn lemma_named_functions_more()
    ensures
        stands_for("mod"@, " mod "@),
        stands_for("bmod"@, " mod "@),
        stands_for("pmod"@, " mod "@),
{
    lemma_spellings();
}

/// Every command for a function with a name gives the name.
pub proof fn law_named_functions()
    ensures
        formula_text("\\sin"@) == "sin"@,
        formula_text("\\cos"@) == "cos"@,
        formula_text("\\tan"@) == "tan"@,
        formula_text("\\log"@) == "log"@,
        formula_text("\\ln"@) == "ln"@,
        formula_text("\\exp"@) == "exp"@,
        formula_text("\\lim"@) == "lim"@,
        formula_text("\\max"@) == "max"@,
        formula_text("\\min"@) == "min"@,
        formula_text("\\sup"@) == "sup"@,
        formula_text("\\inf"@) == "inf"@,
        formula_text("\\arg"@) == "arg"@,
        formula_text("\\det"@) == "det"@,
        formula_text("\\gcd"@) == "gcd"@,
        formula_text("\\mod"@) == "mod"@,
        formula_text("\\bmod"@) == "mod"@,
        formula_text("\\pmod"@) == "mod"@,
{
    lemma_spellings();
    lemma_named_functions();
    lemma_named_functions_more();
    reveal_strlit("\\sin");
    reveal_strlit(" sin ");
    reveal_strlit("sin");
    assert(" sin "@ =~= seq![' '] + "sin"@ + seq![' ']);
    lemma_named("\\sin"@, "sin"@, " sin "@, "sin"@);
    reveal_strlit("\\cos");
    reveal_strlit(" cos ");
    reveal_strlit("cos");
    assert(" cos "@ =~= seq![' '] + "cos"@ + seq![' ']);
    lemma_named("\\cos"@, "cos"@, " cos "@, "cos"@);
    reveal_strlit("\\tan");
    reveal_strlit(" tan ");
    reveal_strlit("tan");
    assert(" tan "@ =~= seq![' '] + "tan"@ + seq![' ']);
    lemma_named("\\tan"@, "tan"@, " tan "@, "tan"@);
    reveal_strlit("\\log");
    reveal_strlit(" log ");
    reveal_strlit("log");
    assert(" log "@ =~= seq![' '] + "log"@ + seq![' ']);
    lemma_named("\\log"@, "log"@, " log "@, "log"@);
    reveal_strlit("\\ln");
    reveal_strlit(" ln ");
    reveal_strlit("ln");
    assert(" ln "@ =~= seq![' '] + "ln"@ + seq![' ']);
    lemma_named("\\ln"@, "ln"@, " ln "@, "ln"@);
    reveal_strlit("\\exp");
    reveal_strlit(" exp ");
    reveal_strlit("exp");
    assert(" exp "@ =~= seq![' '] + "exp"@ + seq![' ']);
    lemma_named("\\exp"@, "exp"@, " exp "@, "exp"@);
    reveal_strlit("\\lim");
    reveal_strlit(" lim ");
    reveal_strlit("lim");
    assert(" lim "@ =~= seq![' '] + "lim"@ + seq![' ']);
    lemma_named("\\lim"@, "lim"@, " lim "@, "lim"@);
    reveal_strlit("\\max");
    reveal_strlit(" max ");
    reveal_strlit("max");
    assert(" max "@ =~= seq![' '] + "max"@ + seq![' ']);
    lemma_named("\\max"@, "max"@, " max "@, "max"@);
    reveal_strlit("\\min");
    reveal_strlit(" min ");
    reveal_strlit("min");
    assert(" min "@ =~= seq![' '] + "min"@ + seq![' ']);
    lemma_named("\\min"@, "min"@, " min "@, "min"@);
    reveal_strlit("\\sup");
    reveal_strlit(" sup ");
    reveal_strlit("sup");
    assert(" sup "@ =~= seq![' '] + "sup"@ + seq![' ']);
    lemma_named("\\sup"@, "sup"@, " sup "@, "sup"@);
    reveal_strlit("\\inf");
    reveal_strlit(" inf ");
    reveal_strlit("inf");
    assert(" inf "@ =~= seq![' '] + "inf"@ + seq![' ']);
    lemma_named("\\inf"@, "inf"@, " inf "@, "inf"@);
    reveal_strlit("\\arg");
    reveal_strlit(" arg ");
    reveal_strlit("arg");
    assert(" arg "@ =~= seq![' '] + "arg"@ + seq![' ']);
    lemma_named("\\arg"@, "arg"@, " arg "@, "arg"@);
    reveal_strlit("\\det");
    reveal_strlit(" det ");
    reveal_strlit("det");
    assert(" det "@ =~= seq![' '] + "det"@ + seq![' ']);
    lemma_named("\\det"@, "det"@, " det "@, "det"@);
    reveal_strlit("\\gcd");
    reveal_strlit(" gcd ");
    reveal_strlit("gcd");
    assert(" gcd "@ =~= seq![' '] + "gcd"@ + seq![' ']);
    lemma_named("\\gcd"@, "gcd"@, " gcd "@, "gcd"@);
    reveal_strlit("\\mod");
    reveal_strlit(" mod ");
    reveal_strlit("mod");
    assert(" mod "@ =~= seq![' '] + "mod"@ + seq![' ']);
    lemma_named("\\mod"@, "mod"@, " mod "@, "mod"@);
    reveal_strlit("\\bmod");
    reveal_strlit(" mod ");
    reveal_strlit("mod");
    assert(" mod "@ =~= seq![' '] + "mod"@ + seq![' ']);
    lemma_named("\\bmod"@, "bmod"@, " mod "@, "mod"@);
    reveal_strlit("\\pmod");
    reveal_strlit(" mod ");
    reveal_strlit("mod");
    assert(" mod "@ =~= seq![' '] + "mod"@ + seq![' ']);
    lemma_named("\\pmod"@, "pmod"@, " mod "@, "mod"@);
}

/// The commands that a character may stand for.
spec fn is_spelled(c: char, name: Seq<char>) -> bool {
    if c == 'α' {
        name == "alpha"@
    } else if c == 'β' {
        name == "beta"@
    } else if c == 'γ' {
        name == "gamma"@
    } else if c == 'δ' {
        name == "delta"@
    } else if c == 'ε' {
        name == "epsilon"@ || name == "varepsilon"@
    } else if c == 'ζ' {
        name == "zeta"@
    } else if c == 'η' {
        name == "eta"@
    } else if c == 'θ' {
        name == "theta"@
    } else if c == 'ϑ' {
        name == "vartheta"@
    } else if c == 'ι' {
        name == "iota"@
    } else if c == 'κ' {
        name == "kappa"@
    } else if c == 'λ' {
        name == "lambda"@
    } else if c == 'μ' {
        name == "mu"@
    } else if c == 'ν' {
        name == "nu"@
    } else if c == 'ξ' {
        name == "xi"@
    } else if c == 'π' {
        name == "pi"@
    } else if c == 'ρ' {
        name == "rho"@
    } else if c == 'σ' {
        name == "sigma"@
    } else if c == 'τ' {
        name == "tau"@
    } else if c == 'υ' {
        name == "upsilon"@
    } else if c == 'φ' {
        name == "phi"@ || name == "varphi"@
    } else if c == 'χ' {
        name == "chi"@
    } else if c == 'ψ' {
        name == "psi"@
    } else if c == 'ω' {
        name == "omega"@
    } else if c == 'Γ' {
        name == "Gamma"@
    } else if c == 'Δ' {
        name == "Delta"@
    } else if c == 'Θ' {
        name == "Theta"@
    } else if c == 'Λ' {
        name == "Lambda"@
    } else if c == 'Ξ' {
        name == "Xi"@
    } else if c == 'Π' {
        name == "Pi"@ || name == "prod"@
    } else if c == 'Σ' {
        name == "Sigma"@ || name == "sum"@
    } else if c == 'Υ' {
        name == "Upsilon"@
    } else if c == 'Φ' {
        name == "Phi"@
    } else if c == 'Ψ' {
        name == "Psi"@
    } else if c == 'Ω' {
        name == "Omega"@
    } else if c == '∞' {
        name == "infty"@
    } else if c == '∂' {
        name == "partial"@
    } else if c == '∇' {
        name == "nabla"@
    } else if c == '±' {
        name == "pm"@
    } else if c == '∓' {
        name == "mp"@
    } else if c == '×' {
        name == "times"@
    } else if c == '÷' {
        name == "div"@
    } else if c == '·' {
        name == "cdot"@
    } else if c == '•' {
        name == "bullet"@
    } else if c == '∘' {
        name == "circ"@
    } else if c == '≈' {
        name == "approx"@
    } else if c == '≠' {
        name == "neq"@ || name == "ne"@
    } else if c == '≤' {
        name == "leq"@ || name == "le"@
    } else if c == '≥' {
        name == "geq"@ || name == "ge"@
    } else if c == '≪' {
        name == "ll"@
    } else if c == '≫' {
        name == "gg"@
    } else if c == '∼' {
        name == "sim"@
    } else if c == '≃' {
        name == "simeq"@
    } else if c == '≡' {
        name == "equiv"@
    } else if c == '∝' {
        name == "propto"@
    } else if c == '→' {
        name == "to"@ || name == "rightarrow"@
    } else if c == '←' {
        name == "gets"@ || name == "leftarrow"@
    } else if c == '↦' {
        name == "mapsto"@
    } else if c == '⇒' {
        name == "Rightarrow"@
    } else if c == '⇐' {
        name == "Leftarrow"@
    } else if c == '⇔' {
        name == "Leftrightarrow"@
    } else if c == '↔' {
        name == "leftrightarrow"@
    } else if c == '↑' {
        name == "uparrow"@
    } else if c == '↓' {
        name == "downarrow"@
    } else if c == '∈' {
        name == "in"@
    } else if c == '∉' {
        name == "notin"@
    } else if c == '∋' {
        name == "ni"@
    } else if c == '⊂' {
        name == "subset"@
    } else if c == '⊃' {
        name == "supset"@
    } else if c == '⊆' {
        name == "subseteq"@
    } else if c == '⊇' {
        name == "supseteq"@
    } else if c == '∪' {
        name == "cup"@
    } else if c == '∩' {
        name == "cap"@
    } else if c == '∅' {
        name == "emptyset"@ || name == "varnothing"@
    } else if c == '∖' {
        name == "setminus"@
    } else if c == '∀' {
        name == "forall"@
    } else if c == '∃' {
        name == "exists"@
    } else if c == '∄' {
        name == "nexists"@
    } else if c == '¬' {
        name == "neg"@ || name == "lnot"@
    } else if c == '∧' {
        name == "land"@ || name == "wedge"@
    } else if c == '∨' {
        name == "lor"@ || name == "vee"@
    } else if c == '∫' {
        name == "int"@
    } else if c == '∬' {
        name == "iint"@
    } else if c == '∭' {
        name == "iiint"@
    } else if c == '∮' {
        name == "oint"@
    } else if c == '⋃' {
        name == "bigcup"@
    } else if c == '⋂' {
        name == "bigcap"@
    } else if c == '…' {
        name == "ldots"@ || name == "dots"@
    } else if c == '⋯' {
        name == "cdots"@
    } else if c == '⋮' {
        name == "vdots"@
    } else if c == '⋱' {
        name == "ddots"@
    } else if c == '′' {
        name == "prime"@
    } else if c == '†' {
        name == "dagger"@
    } else if c == '‡' {
        name == "ddagger"@
    } else if c == '⋆' {
        name == "star"@
    } else if c == '*' {
        name == "ast"@
    } else if c == '⊕' {
        name == "oplus"@
    } else if c == '⊗' {
        name == "otimes"@
    } else if c == '⊖' {
        name == "ominus"@
    } else if c == '⊙' {
        name == "odot"@
    } else if c == '⊥' {
        name == "perp"@ || name == "bot"@
    } else if c == '∥' {
        name == "parallel"@
    } else if c == '∠' {
        name == "angle"@
    } else if c == '△' {
        name == "triangle"@
    } else if c == '⊤' {
        name == "top"@
    } else if c == '⊢' {
        name == "vdash"@
    } else if c == '⊣' {
        name == "dashv"@
    } else if c == '⊨' {
        name == "models"@
    } else if c == 'ℏ' {
        name == "hbar"@
    } else if c == 'ℓ' {
        name == "ell"@
    } else if c == 'ℜ' {
        name == "Re"@
    } else if c == 'ℑ' {
        name == "Im"@
    } else if c == 'ℵ' {
        name == "aleph"@
    } else if c == '℘' {
        name == "wp"@
    } else if c == '°' {
        name == "degree"@
    } else if c == '≺' {
        name == "prec"@
    } else if c == '≻' {
        name == "succ"@
    } else if c == '⟨' {
        name == "langle"@
    } else if c == '⟩' {
        name == "rangle"@
    } else if c == '⌈' {
        name == "lceil"@
    } else if c == '⌉' {
        name == "rceil"@
    } else if c == '⌊' {
        name == "lfloor"@
    } else if c == '⌋' {
        name == "rfloor"@
    } else if c == ':' {
        name == "colon"@
    } else {
        false
    }
}

/// Whether a command names a function.
spec fn is_named(name: Seq<char>) -> bool {
    name == "sin"@ || name == "cos"@ || name == "tan"@ || name == "log"@ || name == "ln"@ || name == "exp"@ || name == "lim"@ || name == "max"@ || name == "min"@ || name == "sup"@ || name == "inf"@ || name == "arg"@ || name == "det"@ || name == "gcd"@ || name == "mod"@ || name == "bmod"@ || name == "pmod"@
}

/// Whether two commands are two names of one sign: those that are so in TeX, and the sum and
/// the product, whose signs are the capital letters.
pub open spec fn are_aliases(a: Seq<char>, b: Seq<char>) -> bool {
    ||| a == b
    ||| (a == "epsilon"@ || a == "varepsilon"@) && (b == "epsilon"@ || b == "varepsilon"@)
    ||| (a == "phi"@ || a == "varphi"@) && (b == "phi"@ || b == "varphi"@)
    ||| (a == "Pi"@ || a == "prod"@) && (b == "Pi"@ || b == "prod"@)
    ||| (a == "Sigma"@ || a == "sum"@) && (b == "Sigma"@ || b == "sum"@)
    ||| (a == "neq"@ || a == "ne"@) && (b == "neq"@ || b == "ne"@)
    ||| (a == "leq"@ || a == "le"@) && (b == "leq"@ || b == "le"@)
    ||| (a == "geq"@ || a == "ge"@) && (b == "geq"@ || b == "ge"@)
    ||| (a == "to"@ || a == "rightarrow"@) && (b == "to"@ || b == "rightarrow"@)
    ||| (a == "gets"@ || a == "leftarrow"@) && (b == "gets"@ || b == "leftarrow"@)
    ||| (a == "emptyset"@ || a == "varnothing"@) && (b == "emptyset"@ || b == "varnothing"@)
    ||| (a == "neg"@ || a == "lnot"@) && (b == "neg"@ || b == "lnot"@)
    ||| (a == "land"@ || a == "wedge"@) && (b == "land"@ || b == "wedge"@)
    ||| (a == "lor"@ || a == "vee"@) && (b == "lor"@ || b == "vee"@)
    ||| (a == "mod"@ || a == "bmod"@ || a == "pmod"@) && (b == "mod"@ || b == "bmod"@ || b == "pmod"@)
    ||| (a == "ldots"@ || a == "dots"@) && (b == "ldots"@ || b == "dots"@)
    ||| (a == "perp"@ || a == "bot"@) && (b == "perp"@ || b == "bot"@)
}

proof fn lemma_spelled(name: Seq<char>)
    requires
        symbol_of(name) is Some,
        name != "|"@,
    ensures
        !is_named(name) ==> symbol_of(name)->0.len() == 1 && !is_white(symbol_of(name)->0[0])
            && is_spelled(symbol_of(name)->0[0], name),
{
    reveal_strlit("α");
    reveal_strlit("β");
    reveal_strlit("γ");
    reveal_strlit("δ");
    reveal_strlit("ε");
    reveal_strlit("ζ");
    reveal_strlit("η");
    reveal_strlit("θ");
    reveal_strlit("ϑ");
    reveal_strlit("ι");
    reveal_strlit("κ");
    reveal_strlit("λ");
    reveal_strlit("μ");
    reveal_strlit("ν");
    reveal_strlit("ξ");
    reveal_strlit("π");
    reveal_strlit("ρ");
    reveal_strlit("σ");
    reveal_strlit("τ");
    reveal_strlit("υ");
    reveal_strlit("φ");
    reveal_strlit("χ");
    reveal_strlit("ψ");
    reveal_strlit("ω");
    reveal_strlit("Γ");
    reveal_strlit("Δ");
    reveal_strlit("Θ");
    reveal_strlit("Λ");
    reveal_strlit("Ξ");
    reveal_strlit("Π");
    reveal_strlit("Σ");
    reveal_strlit("Υ");
    reveal_strlit("Φ");
    reveal_strlit("Ψ");
    reveal_strlit("Ω");
    reveal_strlit("∞");
    reveal_strlit("∂");
    reveal_strlit("∇");
    reveal_strlit("±");
    reveal_strlit("∓");
    reveal_strlit("×");
    reveal_strlit("÷");
    reveal_strlit("·");
    reveal_strlit("•");
    reveal_strlit("∘");
    reveal_strlit("≈");
    reveal_strlit("≠");
    reveal_strlit("≤");
    reveal_strlit("≥");
    reveal_strlit("≪");
    reveal_strlit("≫");
    reveal_strlit("∼");
    reveal_strlit("≃");
    reveal_strlit("≡");
    reveal_strlit("∝");
    reveal_strlit("→");
    reveal_strlit("←");
    reveal_strlit("↦");
    reveal_strlit("⇒");
    reveal_strlit("⇐");
    reveal_strlit("⇔");
    reveal_strlit("↔");
    reveal_strlit("↑");
    reveal_strlit("↓");
    reveal_strlit("∈");
    reveal_strlit("∉");
    reveal_strlit("∋");
    reveal_strlit("⊂");
    reveal_strlit("⊃");
    reveal_strlit("⊆");
    reveal_strlit("⊇");
    reveal_strlit("∪");
    reveal_strlit("∩");
    reveal_strlit("∅");
    reveal_strlit("∖");
    reveal_strlit("∀");
    reveal_strlit("∃");
    reveal_strlit("∄");
    reveal_strlit("¬");
    reveal_strlit("∧");
    reveal_strlit("∨");
    reveal_strlit("∫");
    reveal_strlit("∬");
    reveal_strlit("∭");
    reveal_strlit("∮");
    reveal_strlit("⋃");
    reveal_strlit("⋂");
    reveal_strlit("…");
    reveal_strlit("⋯");
    reveal_strlit("⋮");
    reveal_strlit("⋱");
    reveal_strlit("′");
    reveal_strlit("†");
    reveal_strlit("‡");
    reveal_strlit("⋆");
    reveal_strlit("*");
    reveal_strlit("⊕");
    reveal_strlit("⊗");
    reveal_strlit("⊖");
    reveal_strlit("⊙");
    reveal_strlit("⊥");
    reveal_strlit("∥");
    reveal_strlit("∠");
    reveal_strlit("△");
    reveal_strlit("⊤");
    reveal_strlit("⊢");
    reveal_strlit("⊣");
    reveal_strlit("⊨");
    reveal_strlit("ℏ");
    reveal_strlit("ℓ");
    reveal_strlit("ℜ");
    reveal_strlit("ℑ");
    reveal_strlit("ℵ");
    reveal_strlit("℘");
    reveal_strlit("°");
    reveal_strlit("≺");
    reveal_strlit("≻");
    reveal_strlit("⟨");
    reveal_strlit("⟩");
    reveal_strlit("⌈");
    reveal_strlit("⌉");
    reveal_strlit("⌊");
    reveal_strlit("⌋");
    reveal_strlit(":");
    assert("α"@.len() == 1 && "α"@[0] == 'α');
    assert("β"@.len() == 1 && "β"@[0] == 'β');
    assert("γ"@.len() == 1 && "γ"@[0] == 'γ');
    assert("δ"@.len() == 1 && "δ"@[0] == 'δ');
    assert("ε"@.len() == 1 && "ε"@[0] == 'ε');
    assert("ζ"@.len() == 1 && "ζ"@[0] == 'ζ');
    assert("η"@.len() == 1 && "η"@[0] == 'η');
    assert("θ"@.len() == 1 && "θ"@[0] == 'θ');
    assert("ϑ"@.len() == 1 && "ϑ"@[0] == 'ϑ');
    assert("ι"@.len() == 1 && "ι"@[0] == 'ι');
    assert("κ"@.len() == 1 && "κ"@[0] == 'κ');
    assert("λ"@.len() == 1 && "λ"@[0] == 'λ');
    assert("μ"@.len() == 1 && "μ"@[0] == 'μ');
    assert("ν"@.len() == 1 && "ν"@[0] == 'ν');
    assert("ξ"@.len() == 1 && "ξ"@[0] == 'ξ');
    assert("π"@.len() == 1 && "π"@[0] == 'π');
    assert("ρ"@.len() == 1 && "ρ"@[0] == 'ρ');
    assert("σ"@.len() == 1 && "σ"@[0] == 'σ');
    assert("τ"@.len() == 1 && "τ"@[0] == 'τ');
    assert("υ"@.len() == 1 && "υ"@[0] == 'υ');
    assert("φ"@.len() == 1 && "φ"@[0] == 'φ');
    assert("χ"@.len() == 1 && "χ"@[0] == 'χ');
    assert("ψ"@.len() == 1 && "ψ"@[0] == 'ψ');
    assert("ω"@.len() == 1 && "ω"@[0] == 'ω');
    assert("Γ"@.len() == 1 && "Γ"@[0] == 'Γ');
    assert("Δ"@.len() == 1 && "Δ"@[0] == 'Δ');
    assert("Θ"@.len() == 1 && "Θ"@[0] == 'Θ');
    assert("Λ"@.len() == 1 && "Λ"@[0] == 'Λ');
    assert("Ξ"@.len() == 1 && "Ξ"@[0] == 'Ξ');
    assert("Π"@.len() == 1 && "Π"@[0] == 'Π');
    assert("Σ"@.len() == 1 && "Σ"@[0] == 'Σ');
    assert("Υ"@.len() == 1 && "Υ"@[0] == 'Υ');
    assert("Φ"@.len() == 1 && "Φ"@[0] == 'Φ');
    assert("Ψ"@.len() == 1 && "Ψ"@[0] == 'Ψ');
    assert("Ω"@.len() == 1 && "Ω"@[0] == 'Ω');
    assert("∞"@.len() == 1 && "∞"@[0] == '∞');
    assert("∂"@.len() == 1 && "∂"@[0] == '∂');
    assert("∇"@.len() == 1 && "∇"@[0] == '∇');
    assert("±"@.len() == 1 && "±"@[0] == '±');
    assert("∓"@.len() == 1 && "∓"@[0] == '∓');
    assert("×"@.len() == 1 && "×"@[0] == '×');
    assert("÷"@.len() == 1 && "÷"@[0] == '÷');
    assert("·"@.len() == 1 && "·"@[0] == '·');
    assert("•"@.len() == 1 && "•"@[0] == '•');
    assert("∘"@.len() == 1 && "∘"@[0] == '∘');
    assert("≈"@.len() == 1 && "≈"@[0] == '≈');
    assert("≠"@.len() == 1 && "≠"@[0] == '≠');
    assert("≤"@.len() == 1 && "≤"@[0] == '≤');
    assert("≥"@.len() == 1 && "≥"@[0] == '≥');
    assert("≪"@.len() == 1 && "≪"@[0] == '≪');
    assert("≫"@.len() == 1 && "≫"@[0] == '≫');
    assert("∼"@.len() == 1 && "∼"@[0] == '∼');
    assert("≃"@.len() == 1 && "≃"@[0] == '≃');
    assert("≡"@.len() == 1 && "≡"@[0] == '≡');
    assert("∝"@.len() == 1 && "∝"@[0] == '∝');
    assert("→"@.len() == 1 && "→"@[0] == '→');
    assert("←"@.len() == 1 && "←"@[0] == '←');
    assert("↦"@.len() == 1 && "↦"@[0] == '↦');
    assert("⇒"@.len() == 1 && "⇒"@[0] == '⇒');
    assert("⇐"@.len() == 1 && "⇐"@[0] == '⇐');
    assert("⇔"@.len() == 1 && "⇔"@[0] == '⇔');
    assert("↔"@.len() == 1 && "↔"@[0] == '↔');
    assert("↑"@.len() == 1 && "↑"@[0] == '↑');
    assert("↓"@.len() == 1 && "↓"@[0] == '↓');
    assert("∈"@.len() == 1 && "∈"@[0] == '∈');
    assert("∉"@.len() == 1 && "∉"@[0] == '∉');
    assert("∋"@.len() == 1 && "∋"@[0] == '∋');
    assert("⊂"@.len() == 1 && "⊂"@[0] == '⊂');
    assert("⊃"@.len() == 1 && "⊃"@[0] == '⊃');
    assert("⊆"@.len() == 1 && "⊆"@[0] == '⊆');
    assert("⊇"@.len() == 1 && "⊇"@[0] == '⊇');
    assert("∪"@.len() == 1 && "∪"@[0] == '∪');
    assert("∩"@.len() == 1 && "∩"@[0] == '∩');
    assert("∅"@.len() == 1 && "∅"@[0] == '∅');
    assert("∖"@.len() == 1 && "∖"@[0] == '∖');
    assert("∀"@.len() == 1 && "∀"@[0] == '∀');
    assert("∃"@.len() == 1 && "∃"@[0] == '∃');
    assert("∄"@.len() == 1 && "∄"@[0] == '∄');
    assert("¬"@.len() == 1 && "¬"@[0] == '¬');
    assert("∧"@.len() == 1 && "∧"@[0] == '∧');
    assert("∨"@.len() == 1 && "∨"@[0] == '∨');
    assert("∫"@.len() == 1 && "∫"@[0] == '∫');
    assert("∬"@.len() == 1 && "∬"@[0] == '∬');
    assert("∭"@.len() == 1 && "∭"@[0] == '∭');
    assert("∮"@.len() == 1 && "∮"@[0] == '∮');
    assert("⋃"@.len() == 1 && "⋃"@[0] == '⋃');
    assert("⋂"@.len() == 1 && "⋂"@[0] == '⋂');
    assert("…"@.len() == 1 && "…"@[0] == '…');
    assert("⋯"@.len() == 1 && "⋯"@[0] == '⋯');
    assert("⋮"@.len() == 1 && "⋮"@[0] == '⋮');
    assert("⋱"@.len() == 1 && "⋱"@[0] == '⋱');
    assert("′"@.len() == 1 && "′"@[0] == '′');
    assert("†"@.len() == 1 && "†"@[0] == '†');
    assert("‡"@.len() == 1 && "‡"@[0] == '‡');
    assert("⋆"@.len() == 1 && "⋆"@[0] == '⋆');
    assert("*"@.len() == 1 && "*"@[0] == '*');
    assert("⊕"@.len() == 1 && "⊕"@[0] == '⊕');
    assert("⊗"@.len() == 1 && "⊗"@[0] == '⊗');
    assert("⊖"@.len() == 1 && "⊖"@[0] == '⊖');
    assert("⊙"@.len() == 1 && "⊙"@[0] == '⊙');
    assert("⊥"@.len() == 1 && "⊥"@[0] == '⊥');
    assert("∥"@.len() == 1 && "∥"@[0] == '∥');
    assert("∠"@.len() == 1 && "∠"@[0] == '∠');
    assert("△"@.len() == 1 && "△"@[0] == '△');
    assert("⊤"@.len() == 1 && "⊤"@[0] == '⊤');
    assert("⊢"@.len() == 1 && "⊢"@[0] == '⊢');
    assert("⊣"@.len() == 1 && "⊣"@[0] == '⊣');
    assert("⊨"@.len() == 1 && "⊨"@[0] == '⊨');
    assert("ℏ"@.len() == 1 && "ℏ"@[0] == 'ℏ');
    assert("ℓ"@.len() == 1 && "ℓ"@[0] == 'ℓ');
    assert("ℜ"@.len() == 1 && "ℜ"@[0] == 'ℜ');
    assert("ℑ"@.len() == 1 && "ℑ"@[0] == 'ℑ');
    assert("ℵ"@.len() == 1 && "ℵ"@[0] == 'ℵ');
    assert("℘"@.len() == 1 && "℘"@[0] == '℘');
    assert("°"@.len() == 1 && "°"@[0] == '°');
    assert("≺"@.len() == 1 && "≺"@[0] == '≺');
    assert("≻"@.len() == 1 && "≻"@[0] == '≻');
    assert("⟨"@.len() == 1 && "⟨"@[0] == '⟨');
    assert("⟩"@.len() == 1 && "⟩"@[0] == '⟩');
    assert("⌈"@.len() == 1 && "⌈"@[0] == '⌈');
    assert("⌉"@.len() == 1 && "⌉"@[0] == '⌉');
    assert("⌊"@.len() == 1 && "⌊"@[0] == '⌊');
    assert("⌋"@.len() == 1 && "⌋"@[0] == '⌋');
    assert(":"@.len() == 1 && ":"@[0] == ':');
}

proof fn lemma_named_text(name: Seq<char>)
    requires
        is_named(name),
    ensures
        formula_text(seq!['\\'] + name).len() > 1,
        formula_text(seq!['\\'] + name) == name || (formula_text(seq!['\\'] + name) == "mod"@ && (
        name == "bmod"@ || name == "pmod"@)),
{
    lemma_spellings();
    lemma_named_functions();
    lemma_named_functions_more();
    if name == "sin"@ {
        reveal_strlit(" sin ");
        assert(" sin "@ =~= seq![' '] + "sin"@ + seq![' ']);
        lemma_named(seq!['\\'] + name, name, " sin "@, "sin"@);
    }
    if name == "cos"@ {
        reveal_strlit(" cos ");
        assert(" cos "@ =~= seq![' '] + "cos"@ + seq![' ']);
        lemma_named(seq!['\\'] + name, name, " cos "@, "cos"@);
    }
    if name == "tan"@ {
        reveal_strlit(" tan ");
        assert(" tan "@ =~= seq![' '] + "tan"@ + seq![' ']);
        lemma_named(seq!['\\'] + name, name, " tan "@, "tan"@);
    }
    if name == "log"@ {
        reveal_strlit(" log ");
        assert(" log "@ =~= seq![' '] + "log"@ + seq![' ']);
        lemma_named(seq!['\\'] + name, name, " log "@, "log"@);
    }
    if name == "ln"@ {
        reveal_strlit(" ln ");
        assert(" ln "@ =~= seq![' '] + "ln"@ + seq![' ']);
        lemma_named(seq!['\\'] + name, name, " ln "@, "ln"@);
    }
    if name == "exp"@ {
        reveal_strlit(" exp ");
        assert(" exp "@ =~= seq![' '] + "exp"@ + seq![' ']);
        lemma_named(seq!['\\'] + name, name, " exp "@, "exp"@);
    }
    if name == "lim"@ {
        reveal_strlit(" lim ");
        assert(" lim "@ =~= seq![' '] + "lim"@ + seq![' ']);
        lemma_named(seq!['\\'] + name, name, " lim "@, "lim"@);
    }
    if name == "max"@ {
        reveal_strlit(" max ");
        assert(" max "@ =~= seq![' '] + "max"@ + seq![' ']);
        lemma_named(seq!['\\'] + name, name, " max "@, "max"@);
    }
    if name == "min"@ {
        reveal_strlit(" min ");
        assert(" min "@ =~= seq![' '] + "min"@ + seq![' ']);
        lemma_named(seq!['\\'] + name, name, " min "@, "min"@);
    }
    if name == "sup"@ {
        reveal_strlit(" sup ");
        assert(" sup "@ =~= seq![' '] + "sup"@ + seq![' ']);
        lemma_named(seq!['\\'] + name, name, " sup "@, "sup"@);
    }
    if name == "inf"@ {
        reveal_strlit(" inf ");
        assert(" inf "@ =~= seq![' '] + "inf"@ + seq![' ']);
        lemma_named(seq!['\\'] + name, name, " inf "@, "inf"@);
    }
    if name == "arg"@ {
        reveal_strlit(" arg ");
        assert(" arg "@ =~= seq![' '] + "arg"@ + seq![' ']);
        lemma_named(seq!['\\'] + name, name, " arg "@, "arg"@);
    }
    if name == "det"@ {
        reveal_strlit(" det ");
        assert(" det "@ =~= seq![' '] + "det"@ + seq![' ']);
        lemma_named(seq!['\\'] + name, name, " det "@, "det"@);
    }
    if name == "gcd"@ {
        reveal_strlit(" gcd ");
        assert(" gcd "@ =~= seq![' '] + "gcd"@ + seq![' ']);
        lemma_named(seq!['\\'] + name, name, " gcd "@, "gcd"@);
    }
    if name == "mod"@ {
        reveal_strlit(" mod ");
        assert(" mod "@ =~= seq![' '] + "mod"@ + seq![' ']);
        lemma_named(seq!['\\'] + name, name, " mod "@, "mod"@);
    }
    if name == "bmod"@ {
        reveal_strlit(" mod ");
        assert(" mod "@ =~= seq![' '] + "mod"@ + seq![' ']);
        lemma_named(seq!['\\'] + name, name, " mod "@, "mod"@);
    }
    if name == "pmod"@ {
        reveal_strlit(" mod ");
        assert(" mod "@ =~= seq![' '] + "mod"@ + seq![' ']);
        lemma_named(seq!['\\'] + name, name, " mod "@, "mod"@);
    }
}

/// Two commands that are shown as the same text are two names of one sign: no two signs are
/// taken for one another.
pub proof fn law_commands_are_told_apart(a: Seq<char>, b: Seq<char>)
    requires
        symbol_of(a) is Some,
        symbol_of(b) is Some,
        a != "|"@,
        b != "|"@,
        formula_text(seq!['\\'] + a) == formula_text(seq!['\\'] + b),
    ensures
        are_aliases(a, b),
{
    lemma_spellings();
    if is_named(a) {
        lemma_named_text(a);
    } else {
        lemma_text_of(a);
    }
    if is_named(b) {
        lemma_named_text(b);
    } else {
        lemma_text_of(b);
    }
}

proof fn lemma_text_of(name: Seq<char>)
    requires
        symbol_of(name) is Some,
        name != "|"@,
        !is_named(name),
    ensures
        formula_text(seq!['\\'] + name).len() == 1,
        is_spelled(formula_text(seq!['\\'] + name)[0], name),
{
    let symbol = symbol_of(name)->0;
    lemma_spelled(name);
    lemma_is_plain(name);
    lemma_shown(seq!['\\'] + name, name, symbol);
}

proof fn lemma_is_plain(name: Seq<char>)
    requires
        symbol_of(name) is Some,
        name != "|"@,
        !is_named(name),
    ensures
        stands_for(name, symbol_of(name)->0),
{
    lemma_small_greek_letters();
    lemma_small_greek_letters_more();
    lemma_capital_greek_letters();
    lemma_relations();
    lemma_relations_more();
    lemma_arrows();
    lemma_sets();
    lemma_logic();
    lemma_operations();
    lemma_operations_more();
    lemma_sums_and_integrals();
    lemma_letters_and_brackets();
}

/// Digits and signs are raised as themselves.
pub proof fn law_raised_signs()
    ensures
        formula_text(seq!['x', '^', '0']) == seq!['x', '⁰'],
        formula_text(seq!['x', '^', '1']) == seq!['x', '¹'],
        formula_text(seq!['x', '^', '2']) == seq!['x', '²'],
        formula_text(seq!['x', '^', '3']) == seq!['x', '³'],
        formula_text(seq!['x', '^', '4']) == seq!['x', '⁴'],
        formula_text(seq!['x', '^', '5']) == seq!['x', '⁵'],
        formula_text(seq!['x', '^', '6']) == seq!['x', '⁶'],
        formula_text(seq!['x', '^', '7']) == seq!['x', '⁷'],
        formula_text(seq!['x', '^', '8']) == seq!['x', '⁸'],
        formula_text(seq!['x', '^', '9']) == seq!['x', '⁹'],
        formula_text(seq!['x', '^', '+']) == seq!['x', '⁺'],
        formula_text(seq!['x', '^', '-']) == seq!['x', '⁻'],
        formula_text(seq!['x', '^', '=']) == seq!['x', '⁼'],
        formula_text(seq!['x', '^', '(']) == seq!['x', '⁽'],
        formula_text(seq!['x', '^', ')']) == seq!['x', '⁾'],
        formula_text(seq!['x', '^', '⊤']) == seq!['x', 'ᵀ'],
{
    lemma_script('^', '0', '⁰');
    lemma_script('^', '1', '¹');
    lemma_script('^', '2', '²');
    lemma_script('^', '3', '³');
    lemma_script('^', '4', '⁴');
    lemma_script('^', '5', '⁵');
    lemma_script('^', '6', '⁶');
    lemma_script('^', '7', '⁷');
    lemma_script('^', '8', '⁸');
    lemma_script('^', '9', '⁹');
    lemma_script('^', '+', '⁺');
    lemma_script('^', '-', '⁻');
    lemma_script('^', '=', '⁼');
    lemma_script('^', '(', '⁽');
    lemma_script('^', ')', '⁾');
    lemma_script('^', '⊤', 'ᵀ');
}

/// Letters are raised as themselves.
pub proof fn law_raised_letters()
    ensures
        formula_text(seq!['x', '^', 'a']) == seq!['x', 'ᵃ'],
        formula_text(seq!['x', '^', 'b']) == seq!['x', 'ᵇ'],
        formula_text(seq!['x', '^', 'c']) == seq!['x', 'ᶜ'],
        formula_text(seq!['x', '^', 'd']) == seq!['x', 'ᵈ'],
        formula_text(seq!['x', '^', 'e']) == seq!['x', 'ᵉ'],
        formula_text(seq!['x', '^', 'f']) == seq!['x', 'ᶠ'],
        formula_text(seq!['x', '^', 'g']) == seq!['x', 'ᵍ'],
        formula_text(seq!['x', '^', 'h']) == seq!['x', 'ʰ'],
        formula_text(seq!['x', '^', 'i']) == seq!['x', 'ⁱ'],
        formula_text(seq!['x', '^', 'j']) == seq!['x', 'ʲ'],
        formula_text(seq!['x', '^', 'k']) == seq!['x', 'ᵏ'],
        formula_text(seq!['x', '^', 'l']) == seq!['x', 'ˡ'],
        formula_text(seq!['x', '^', 'm']) == seq!['x', 'ᵐ'],
        formula_text(seq!['x', '^', 'n']) == seq!['x', 'ⁿ'],
        formula_text(seq!['x', '^', 'o']) == seq!['x', 'ᵒ'],
        formula_text(seq!['x', '^', 'p']) == seq!['x', 'ᵖ'],
        formula_text(seq!['x', '^', 'r']) == seq!['x', 'ʳ'],
        formula_text(seq!['x', '^', 's']) == seq!['x', 'ˢ'],
        formula_text(seq!['x', '^', 't']) == seq!['x', 'ᵗ'],
        formula_text(seq!['x', '^', 'u']) == seq!['x', 'ᵘ'],
        formula_text(seq!['x', '^', 'v']) == seq!['x', 'ᵛ'],
        formula_text(seq!['x', '^', 'w']) == seq!['x', 'ʷ'],
        formula_text(seq!['x', '^', 'x']) == seq!['x', 'ˣ'],
        formula_text(seq!['x', '^', 'y']) == seq!['x', 'ʸ'],
        formula_text(seq!['x', '^', 'z']) == seq!['x', 'ᶻ'],
{
    lemma_script('^', 'a', 'ᵃ');
    lemma_script('^', 'b', 'ᵇ');
    lemma_script('^', 'c', 'ᶜ');
    lemma_script('^', 'd', 'ᵈ');
    lemma_script('^', 'e', 'ᵉ');
    lemma_script('^', 'f', 'ᶠ');
    lemma_script('^', 'g', 'ᵍ');
    lemma_script('^', 'h', 'ʰ');
    lemma_script('^', 'i', 'ⁱ');
    lemma_script('^', 'j', 'ʲ');
    lemma_script('^', 'k', 'ᵏ');
    lemma_script('^', 'l', 'ˡ');
    lemma_script('^', 'm', 'ᵐ');
    lemma_script('^', 'n', 'ⁿ');
    lemma_script('^', 'o', 'ᵒ');
    lemma_script('^', 'p', 'ᵖ');
    lemma_script('^', 'r', 'ʳ');
    lemma_script('^', 's', 'ˢ');
    lemma_script('^', 't', 'ᵗ');
    lemma_script('^', 'u', 'ᵘ');
    lemma_script('^', 'v', 'ᵛ');
    lemma_script('^', 'w', 'ʷ');
    lemma_script('^', 'x', 'ˣ');
    lemma_script('^', 'y', 'ʸ');
    lemma_script('^', 'z', 'ᶻ');
}

/// Digits and signs are lowered as themselves.
pub proof fn law_lowered_signs()
    ensures
        formula_text(seq!['x', '_', '0']) == seq!['x', '₀'],
        formula_text(seq!['x', '_', '1']) == seq!['x', '₁'],
        formula_text(seq!['x', '_', '2']) == seq!['x', '₂'],
        formula_text(seq!['x', '_', '3']) == seq!['x', '₃'],
        formula_text(seq!['x', '_', '4']) == seq!['x', '₄'],
        formula_text(seq!['x', '_', '5']) == seq!['x', '₅'],
        formula_text(seq!['x', '_', '6']) == seq!['x', '₆'],
        formula_text(seq!['x', '_', '7']) == seq!['x', '₇'],
        formula_text(seq!['x', '_', '8']) == seq!['x', '₈'],
        formula_text(seq!['x', '_', '9']) == seq!['x', '₉'],
        formula_text(seq!['x', '_', '+']) == seq!['x', '₊'],
        formula_text(seq!['x', '_', '-']) == seq!['x', '₋'],
        formula_text(seq!['x', '_', '=']) == seq!['x', '₌'],
        formula_text(seq!['x', '_', '(']) == seq!['x', '₍'],
        formula_text(seq!['x', '_', ')']) == seq!['x', '₎'],
{
    lemma_script('_', '0', '₀');
    lemma_script('_', '1', '₁');
    lemma_script('_', '2', '₂');
    lemma_script('_', '3', '₃');
    lemma_script('_', '4', '₄');
    lemma_script('_', '5', '₅');
    lemma_script('_', '6', '₆');
    lemma_script('_', '7', '₇');
    lemma_script('_', '8', '₈');
    lemma_script('_', '9', '₉');
    lemma_script('_', '+', '₊');
    lemma_script('_', '-', '₋');
    lemma_script('_', '=', '₌');
    lemma_script('_', '(', '₍');
    lemma_script('_', ')', '₎');
}

/// Letters are lowered as themselves.
pub proof fn law_lowered_letters()
    ensures
        formula_text(seq!['x', '_', 'a']) == seq!['x', 'ₐ'],
        formula_text(seq!['x', '_', 'e']) == seq!['x', 'ₑ'],
        formula_text(seq!['x', '_', 'h']) == seq!['x', 'ₕ'],
        formula_text(seq!['x', '_', 'i']) == seq!['x', 'ᵢ'],
        formula_text(seq!['x', '_', 'j']) == seq!['x', 'ⱼ'],
        formula_text(seq!['x', '_', 'k']) == seq!['x', 'ₖ'],
        formula_text(seq!['x', '_', 'l']) == seq!['x', 'ₗ'],
        formula_text(seq!['x', '_', 'm']) == seq!['x', 'ₘ'],
        formula_text(seq!['x', '_', 'n']) == seq!['x', 'ₙ'],
        formula_text(seq!['x', '_', 'o']) == seq!['x', 'ₒ'],
        formula_text(seq!['x', '_', 'p']) == seq!['x', 'ₚ'],
        formula_text(seq!['x', '_', 'r']) == seq!['x', 'ᵣ'],
        formula_text(seq!['x', '_', 's']) == seq!['x', 'ₛ'],
        formula_text(seq!['x', '_', 't']) == seq!['x', 'ₜ'],
        formula_text(seq!['x', '_', 'u']) == seq!['x', 'ᵤ'],
        formula_text(seq!['x', '_', 'v']) == seq!['x', 'ᵥ'],
        formula_text(seq!['x', '_', 'x']) == seq!['x', 'ₓ'],
{
    lemma_script('_', 'a', 'ₐ');
    lemma_script('_', 'e', 'ₑ');
    lemma_script('_', 'h', 'ₕ');
    lemma_script('_', 'i', 'ᵢ');
    lemma_script('_', 'j', 'ⱼ');
    lemma_script('_', 'k', 'ₖ');
    lemma_script('_', 'l', 'ₗ');
    lemma_script('_', 'm', 'ₘ');
    lemma_script('_', 'n', 'ₙ');
    lemma_script('_', 'o', 'ₒ');
    lemma_script('_', 'p', 'ₚ');
    lemma_script('_', 'r', 'ᵣ');
    lemma_script('_', 's', 'ₛ');
    lemma_script('_', 't', 'ₜ');
    lemma_script('_', 'u', 'ᵤ');
    lemma_script('_', 'v', 'ᵥ');
    lemma_script('_', 'x', 'ₓ');
}

proof fn lemma_script(mark: char, c: char, x: char)
    requires
        mark == '^' || mark == '_',
        mark == '^' ==> superscript_of(c) == Some(x),
        mark == '_' ==> subscript_of(c) == Some(x),
        !is_white(c),
        !is_white(x),
        c != '{',
        c != '\\',
    ensures
        formula_text(seq!['x', mark, c]) == seq!['x', x],
{
    let tex = seq!['x', mark, c];
    let none = Seq::<char>::empty();
    law_a_plain_character_stands_for_itself(tex, 0, None);
    law_scripts_are_raised_and_lowered(tex, 1, None, x);
    assert(sequence_text(tex, 3, None).0 == none);
    assert(seq![x] + none =~= seq![x]);
    let shown = sequence_text(tex, 0, None).0;
    assert(shown =~= seq!['x', x]);
    law_one_word(shown);
    law_short_formulas_are_shallow(tex);
}

/// No two characters are raised or lowered to the same one, and nothing raised looks like
/// something lowered.
pub proof fn law_scripts_are_told_apart(a: char, b: char)
    ensures
        superscript_of(a) is Some && superscript_of(a) == superscript_of(b) ==> a == b,
        subscript_of(a) is Some && subscript_of(a) == subscript_of(b) ==> a == b,
        superscript_of(a) is Some ==> superscript_of(a) != subscript_of(b),
{
}

} // verus!
