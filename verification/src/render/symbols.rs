//! Names of symbols in formulas, and raised and lowered characters.

use crate::text::same;
use vstd::prelude::*;
use vstd::string::*;

verus! {

/// The symbol that a command stands for.
pub open spec fn symbol_of(name: Seq<char>) -> Option<Seq<char>> {
    if name == "alpha"@ {
        Some("α"@)
    } else if name == "beta"@ {
        Some("β"@)
    } else if name == "gamma"@ {
        Some("γ"@)
    } else if name == "delta"@ {
        Some("δ"@)
    } else if name == "epsilon"@ {
        Some("ε"@)
    } else if name == "varepsilon"@ {
        Some("ε"@)
    } else if name == "zeta"@ {
        Some("ζ"@)
    } else if name == "eta"@ {
        Some("η"@)
    } else if name == "theta"@ {
        Some("θ"@)
    } else if name == "vartheta"@ {
        Some("ϑ"@)
    } else if name == "iota"@ {
        Some("ι"@)
    } else if name == "kappa"@ {
        Some("κ"@)
    } else if name == "lambda"@ {
        Some("λ"@)
    } else if name == "mu"@ {
        Some("μ"@)
    } else if name == "nu"@ {
        Some("ν"@)
    } else if name == "xi"@ {
        Some("ξ"@)
    } else if name == "pi"@ {
        Some("π"@)
    } else if name == "rho"@ {
        Some("ρ"@)
    } else if name == "sigma"@ {
        Some("σ"@)
    } else if name == "tau"@ {
        Some("τ"@)
    } else if name == "upsilon"@ {
        Some("υ"@)
    } else if name == "phi"@ {
        Some("φ"@)
    } else if name == "varphi"@ {
        Some("φ"@)
    } else if name == "chi"@ {
        Some("χ"@)
    } else if name == "psi"@ {
        Some("ψ"@)
    } else if name == "omega"@ {
        Some("ω"@)
    } else if name == "Gamma"@ {
        Some("Γ"@)
    } else if name == "Delta"@ {
        Some("Δ"@)
    } else if name == "Theta"@ {
        Some("Θ"@)
    } else if name == "Lambda"@ {
        Some("Λ"@)
    } else if name == "Xi"@ {
        Some("Ξ"@)
    } else if name == "Pi"@ {
        Some("Π"@)
    } else if name == "Sigma"@ {
        Some("Σ"@)
    } else if name == "Upsilon"@ {
        Some("Υ"@)
    } else if name == "Phi"@ {
        Some("Φ"@)
    } else if name == "Psi"@ {
        Some("Ψ"@)
    } else if name == "Omega"@ {
        Some("Ω"@)
    } else if name == "infty"@ {
        Some("∞"@)
    } else if name == "partial"@ {
        Some("∂"@)
    } else if name == "nabla"@ {
        Some("∇"@)
    } else if name == "pm"@ {
        Some("±"@)
    } else if name == "mp"@ {
        Some("∓"@)
    } else if name == "times"@ {
        Some("×"@)
    } else if name == "div"@ {
        Some("÷"@)
    } else if name == "cdot"@ {
        Some("·"@)
    } else if name == "bullet"@ {
        Some("•"@)
    } else if name == "circ"@ {
        Some("∘"@)
    } else if name == "approx"@ {
        Some("≈"@)
    } else if name == "neq"@ {
        Some("≠"@)
    } else if name == "ne"@ {
        Some("≠"@)
    } else if name == "leq"@ {
        Some("≤"@)
    } else if name == "le"@ {
        Some("≤"@)
    } else if name == "geq"@ {
        Some("≥"@)
    } else if name == "ge"@ {
        Some("≥"@)
    } else if name == "ll"@ {
        Some("≪"@)
    } else if name == "gg"@ {
        Some("≫"@)
    } else if name == "sim"@ {
        Some("∼"@)
    } else if name == "simeq"@ {
        Some("≃"@)
    } else if name == "equiv"@ {
        Some("≡"@)
    } else if name == "propto"@ {
        Some("∝"@)
    } else if name == "to"@ {
        Some("→"@)
    } else if name == "gets"@ {
        Some("←"@)
    } else if name == "mapsto"@ {
        Some("↦"@)
    } else if name == "Rightarrow"@ {
        Some("⇒"@)
    } else if name == "Leftarrow"@ {
        Some("⇐"@)
    } else if name == "Leftrightarrow"@ {
        Some("⇔"@)
    } else if name == "rightarrow"@ {
        Some("→"@)
    } else if name == "leftarrow"@ {
        Some("←"@)
    } else if name == "leftrightarrow"@ {
        Some("↔"@)
    } else if name == "uparrow"@ {
        Some("↑"@)
    } else if name == "downarrow"@ {
        Some("↓"@)
    } else if name == "in"@ {
        Some("∈"@)
    } else if name == "notin"@ {
        Some("∉"@)
    } else if name == "ni"@ {
        Some("∋"@)
    } else if name == "subset"@ {
        Some("⊂"@)
    } else if name == "supset"@ {
        Some("⊃"@)
    } else if name == "subseteq"@ {
        Some("⊆"@)
    } else if name == "supseteq"@ {
        Some("⊇"@)
    } else if name == "cup"@ {
        Some("∪"@)
    } else if name == "cap"@ {
        Some("∩"@)
    } else if name == "emptyset"@ {
        Some("∅"@)
    } else if name == "varnothing"@ {
        Some("∅"@)
    } else if name == "setminus"@ {
        Some("∖"@)
    } else if name == "forall"@ {
        Some("∀"@)
    } else if name == "exists"@ {
        Some("∃"@)
    } else if name == "nexists"@ {
        Some("∄"@)
    } else if name == "neg"@ {
        Some("¬"@)
    } else if name == "lnot"@ {
        Some("¬"@)
    } else if name == "land"@ {
        Some("∧"@)
    } else if name == "wedge"@ {
        Some("∧"@)
    } else if name == "lor"@ {
        Some("∨"@)
    } else if name == "vee"@ {
        Some("∨"@)
    } else if name == "sum"@ {
        Some("Σ"@)
    } else if name == "prod"@ {
        Some("Π"@)
    } else if name == "int"@ {
        Some("∫"@)
    } else if name == "iint"@ {
        Some("∬"@)
    } else if name == "iiint"@ {
        Some("∭"@)
    } else if name == "oint"@ {
        Some("∮"@)
    } else if name == "bigcup"@ {
        Some("⋃"@)
    } else if name == "bigcap"@ {
        Some("⋂"@)
    } else if name == "sin"@ {
        Some(" sin "@)
    } else if name == "cos"@ {
        Some(" cos "@)
    } else if name == "tan"@ {
        Some(" tan "@)
    } else if name == "log"@ {
        Some(" log "@)
    } else if name == "ln"@ {
        Some(" ln "@)
    } else if name == "exp"@ {
        Some(" exp "@)
    } else if name == "lim"@ {
        Some(" lim "@)
    } else if name == "max"@ {
        Some(" max "@)
    } else if name == "min"@ {
        Some(" min "@)
    } else if name == "sup"@ {
        Some(" sup "@)
    } else if name == "inf"@ {
        Some(" inf "@)
    } else if name == "arg"@ {
        Some(" arg "@)
    } else if name == "det"@ {
        Some(" det "@)
    } else if name == "gcd"@ {
        Some(" gcd "@)
    } else if name == "mod"@ {
        Some(" mod "@)
    } else if name == "bmod"@ {
        Some(" mod "@)
    } else if name == "pmod"@ {
        Some(" mod "@)
    } else if name == "ldots"@ {
        Some("…"@)
    } else if name == "cdots"@ {
        Some("⋯"@)
    } else if name == "dots"@ {
        Some("…"@)
    } else if name == "vdots"@ {
        Some("⋮"@)
    } else if name == "ddots"@ {
        Some("⋱"@)
    } else if name == "prime"@ {
        Some("′"@)
    } else if name == "dagger"@ {
        Some("†"@)
    } else if name == "ddagger"@ {
        Some("‡"@)
    } else if name == "star"@ {
        Some("⋆"@)
    } else if name == "ast"@ {
        Some("*"@)
    } else if name == "oplus"@ {
        Some("⊕"@)
    } else if name == "otimes"@ {
        Some("⊗"@)
    } else if name == "ominus"@ {
        Some("⊖"@)
    } else if name == "odot"@ {
        Some("⊙"@)
    } else if name == "perp"@ {
        Some("⊥"@)
    } else if name == "parallel"@ {
        Some("∥"@)
    } else if name == "angle"@ {
        Some("∠"@)
    } else if name == "triangle"@ {
        Some("△"@)
    } else if name == "top"@ {
        Some("⊤"@)
    } else if name == "bot"@ {
        Some("⊥"@)
    } else if name == "vdash"@ {
        Some("⊢"@)
    } else if name == "dashv"@ {
        Some("⊣"@)
    } else if name == "models"@ {
        Some("⊨"@)
    } else if name == "hbar"@ {
        Some("ℏ"@)
    } else if name == "ell"@ {
        Some("ℓ"@)
    } else if name == "Re"@ {
        Some("ℜ"@)
    } else if name == "Im"@ {
        Some("ℑ"@)
    } else if name == "aleph"@ {
        Some("ℵ"@)
    } else if name == "wp"@ {
        Some("℘"@)
    } else if name == "degree"@ {
        Some("°"@)
    } else if name == "prec"@ {
        Some("≺"@)
    } else if name == "succ"@ {
        Some("≻"@)
    } else if name == "langle"@ {
        Some("⟨"@)
    } else if name == "rangle"@ {
        Some("⟩"@)
    } else if name == "lceil"@ {
        Some("⌈"@)
    } else if name == "rceil"@ {
        Some("⌉"@)
    } else if name == "lfloor"@ {
        Some("⌊"@)
    } else if name == "rfloor"@ {
        Some("⌋"@)
    } else if name == "|"@ {
        Some("‖"@)
    } else if name == "colon"@ {
        Some(":"@)
    } else {
        None
    }
}

/// The symbol that a command stands for.
pub fn symbol_for(name: &str) -> (r: Option<&'static str>)
    ensures
        match r {
            Some(s) => symbol_of(name@) == Some(s@),
            None => symbol_of(name@) is None,
        },
{
    if same(name, "alpha") {
        return Some("α");
    }
    if same(name, "beta") {
        return Some("β");
    }
    if same(name, "gamma") {
        return Some("γ");
    }
    if same(name, "delta") {
        return Some("δ");
    }
    if same(name, "epsilon") {
        return Some("ε");
    }
    if same(name, "varepsilon") {
        return Some("ε");
    }
    if same(name, "zeta") {
        return Some("ζ");
    }
    if same(name, "eta") {
        return Some("η");
    }
    if same(name, "theta") {
        return Some("θ");
    }
    if same(name, "vartheta") {
        return Some("ϑ");
    }
    if same(name, "iota") {
        return Some("ι");
    }
    if same(name, "kappa") {
        return Some("κ");
    }
    if same(name, "lambda") {
        return Some("λ");
    }
    if same(name, "mu") {
        return Some("μ");
    }
    if same(name, "nu") {
        return Some("ν");
    }
    if same(name, "xi") {
        return Some("ξ");
    }
    if same(name, "pi") {
        return Some("π");
    }
    if same(name, "rho") {
        return Some("ρ");
    }
    if same(name, "sigma") {
        return Some("σ");
    }
    if same(name, "tau") {
        return Some("τ");
    }
    if same(name, "upsilon") {
        return Some("υ");
    }
    if same(name, "phi") {
        return Some("φ");
    }
    if same(name, "varphi") {
        return Some("φ");
    }
    if same(name, "chi") {
        return Some("χ");
    }
    if same(name, "psi") {
        return Some("ψ");
    }
    if same(name, "omega") {
        return Some("ω");
    }
    if same(name, "Gamma") {
        return Some("Γ");
    }
    if same(name, "Delta") {
        return Some("Δ");
    }
    if same(name, "Theta") {
        return Some("Θ");
    }
    if same(name, "Lambda") {
        return Some("Λ");
    }
    if same(name, "Xi") {
        return Some("Ξ");
    }
    if same(name, "Pi") {
        return Some("Π");
    }
    if same(name, "Sigma") {
        return Some("Σ");
    }
    if same(name, "Upsilon") {
        return Some("Υ");
    }
    if same(name, "Phi") {
        return Some("Φ");
    }
    if same(name, "Psi") {
        return Some("Ψ");
    }
    if same(name, "Omega") {
        return Some("Ω");
    }
    if same(name, "infty") {
        return Some("∞");
    }
    if same(name, "partial") {
        return Some("∂");
    }
    if same(name, "nabla") {
        return Some("∇");
    }
    if same(name, "pm") {
        return Some("±");
    }
    if same(name, "mp") {
        return Some("∓");
    }
    if same(name, "times") {
        return Some("×");
    }
    if same(name, "div") {
        return Some("÷");
    }
    if same(name, "cdot") {
        return Some("·");
    }
    if same(name, "bullet") {
        return Some("•");
    }
    if same(name, "circ") {
        return Some("∘");
    }
    if same(name, "approx") {
        return Some("≈");
    }
    if same(name, "neq") {
        return Some("≠");
    }
    if same(name, "ne") {
        return Some("≠");
    }
    if same(name, "leq") {
        return Some("≤");
    }
    if same(name, "le") {
        return Some("≤");
    }
    if same(name, "geq") {
        return Some("≥");
    }
    if same(name, "ge") {
        return Some("≥");
    }
    if same(name, "ll") {
        return Some("≪");
    }
    if same(name, "gg") {
        return Some("≫");
    }
    if same(name, "sim") {
        return Some("∼");
    }
    if same(name, "simeq") {
        return Some("≃");
    }
    if same(name, "equiv") {
        return Some("≡");
    }
    if same(name, "propto") {
        return Some("∝");
    }
    if same(name, "to") {
        return Some("→");
    }
    if same(name, "gets") {
        return Some("←");
    }
    if same(name, "mapsto") {
        return Some("↦");
    }
    if same(name, "Rightarrow") {
        return Some("⇒");
    }
    if same(name, "Leftarrow") {
        return Some("⇐");
    }
    if same(name, "Leftrightarrow") {
        return Some("⇔");
    }
    if same(name, "rightarrow") {
        return Some("→");
    }
    if same(name, "leftarrow") {
        return Some("←");
    }
    if same(name, "leftrightarrow") {
        return Some("↔");
    }
    if same(name, "uparrow") {
        return Some("↑");
    }
    if same(name, "downarrow") {
        return Some("↓");
    }
    if same(name, "in") {
        return Some("∈");
    }
    if same(name, "notin") {
        return Some("∉");
    }
    if same(name, "ni") {
        return Some("∋");
    }
    if same(name, "subset") {
        return Some("⊂");
    }
    if same(name, "supset") {
        return Some("⊃");
    }
    if same(name, "subseteq") {
        return Some("⊆");
    }
    if same(name, "supseteq") {
        return Some("⊇");
    }
    if same(name, "cup") {
        return Some("∪");
    }
    if same(name, "cap") {
        return Some("∩");
    }
    if same(name, "emptyset") {
        return Some("∅");
    }
    if same(name, "varnothing") {
        return Some("∅");
    }
    if same(name, "setminus") {
        return Some("∖");
    }
    if same(name, "forall") {
        return Some("∀");
    }
    if same(name, "exists") {
        return Some("∃");
    }
    if same(name, "nexists") {
        return Some("∄");
    }
    if same(name, "neg") {
        return Some("¬");
    }
    if same(name, "lnot") {
        return Some("¬");
    }
    if same(name, "land") {
        return Some("∧");
    }
    if same(name, "wedge") {
        return Some("∧");
    }
    if same(name, "lor") {
        return Some("∨");
    }
    if same(name, "vee") {
        return Some("∨");
    }
    if same(name, "sum") {
        return Some("Σ");
    }
    if same(name, "prod") {
        return Some("Π");
    }
    if same(name, "int") {
        return Some("∫");
    }
    if same(name, "iint") {
        return Some("∬");
    }
    if same(name, "iiint") {
        return Some("∭");
    }
    if same(name, "oint") {
        return Some("∮");
    }
    if same(name, "bigcup") {
        return Some("⋃");
    }
    if same(name, "bigcap") {
        return Some("⋂");
    }
    if same(name, "sin") {
        return Some(" sin ");
    }
    if same(name, "cos") {
        return Some(" cos ");
    }
    if same(name, "tan") {
        return Some(" tan ");
    }
    if same(name, "log") {
        return Some(" log ");
    }
    if same(name, "ln") {
        return Some(" ln ");
    }
    if same(name, "exp") {
        return Some(" exp ");
    }
    if same(name, "lim") {
        return Some(" lim ");
    }
    if same(name, "max") {
        return Some(" max ");
    }
    if same(name, "min") {
        return Some(" min ");
    }
    if same(name, "sup") {
        return Some(" sup ");
    }
    if same(name, "inf") {
        return Some(" inf ");
    }
    if same(name, "arg") {
        return Some(" arg ");
    }
    if same(name, "det") {
        return Some(" det ");
    }
    if same(name, "gcd") {
        return Some(" gcd ");
    }
    if same(name, "mod") {
        return Some(" mod ");
    }
    if same(name, "bmod") {
        return Some(" mod ");
    }
    if same(name, "pmod") {
        return Some(" mod ");
    }
    if same(name, "ldots") {
        return Some("…");
    }
    if same(name, "cdots") {
        return Some("⋯");
    }
    if same(name, "dots") {
        return Some("…");
    }
    if same(name, "vdots") {
        return Some("⋮");
    }
    if same(name, "ddots") {
        return Some("⋱");
    }
    if same(name, "prime") {
        return Some("′");
    }
    if same(name, "dagger") {
        return Some("†");
    }
    if same(name, "ddagger") {
        return Some("‡");
    }
    if same(name, "star") {
        return Some("⋆");
    }
    if same(name, "ast") {
        return Some("*");
    }
    if same(name, "oplus") {
        return Some("⊕");
    }
    if same(name, "otimes") {
        return Some("⊗");
    }
    if same(name, "ominus") {
        return Some("⊖");
    }
    if same(name, "odot") {
        return Some("⊙");
    }
    if same(name, "perp") {
        return Some("⊥");
    }
    if same(name, "parallel") {
        return Some("∥");
    }
    if same(name, "angle") {
        return Some("∠");
    }
    if same(name, "triangle") {
        return Some("△");
    }
    if same(name, "top") {
        return Some("⊤");
    }
    if same(name, "bot") {
        return Some("⊥");
    }
    if same(name, "vdash") {
        return Some("⊢");
    }
    if same(name, "dashv") {
        return Some("⊣");
    }
    if same(name, "models") {
        return Some("⊨");
    }
    if same(name, "hbar") {
        return Some("ℏ");
    }
    if same(name, "ell") {
        return Some("ℓ");
    }
    if same(name, "Re") {
        return Some("ℜ");
    }
    if same(name, "Im") {
        return Some("ℑ");
    }
    if same(name, "aleph") {
        return Some("ℵ");
    }
    if same(name, "wp") {
        return Some("℘");
    }
    if same(name, "degree") {
        return Some("°");
    }
    if same(name, "prec") {
        return Some("≺");
    }
    if same(name, "succ") {
        return Some("≻");
    }
    if same(name, "langle") {
        return Some("⟨");
    }
    if same(name, "rangle") {
        return Some("⟩");
    }
    if same(name, "lceil") {
        return Some("⌈");
    }
    if same(name, "rceil") {
        return Some("⌉");
    }
    if same(name, "lfloor") {
        return Some("⌊");
    }
    if same(name, "rfloor") {
        return Some("⌋");
    }
    if same(name, "|") {
        return Some("‖");
    }
    if same(name, "colon") {
        return Some(":");
    }
    None
}

/// A raised character.
pub open spec fn superscript_of(c: char) -> Option<char> {
    if c == '0' {
        Some('⁰')
    } else if c == '1' {
        Some('¹')
    } else if c == '2' {
        Some('²')
    } else if c == '3' {
        Some('³')
    } else if c == '4' {
        Some('⁴')
    } else if c == '5' {
        Some('⁵')
    } else if c == '6' {
        Some('⁶')
    } else if c == '7' {
        Some('⁷')
    } else if c == '8' {
        Some('⁸')
    } else if c == '9' {
        Some('⁹')
    } else if c == '+' {
        Some('⁺')
    } else if c == '-' {
        Some('⁻')
    } else if c == '=' {
        Some('⁼')
    } else if c == '(' {
        Some('⁽')
    } else if c == ')' {
        Some('⁾')
    } else if c == 'a' {
        Some('ᵃ')
    } else if c == 'b' {
        Some('ᵇ')
    } else if c == 'c' {
        Some('ᶜ')
    } else if c == 'd' {
        Some('ᵈ')
    } else if c == 'e' {
        Some('ᵉ')
    } else if c == 'f' {
        Some('ᶠ')
    } else if c == 'g' {
        Some('ᵍ')
    } else if c == 'h' {
        Some('ʰ')
    } else if c == 'i' {
        Some('ⁱ')
    } else if c == 'j' {
        Some('ʲ')
    } else if c == 'k' {
        Some('ᵏ')
    } else if c == 'l' {
        Some('ˡ')
    } else if c == 'm' {
        Some('ᵐ')
    } else if c == 'n' {
        Some('ⁿ')
    } else if c == 'o' {
        Some('ᵒ')
    } else if c == 'p' {
        Some('ᵖ')
    } else if c == 'r' {
        Some('ʳ')
    } else if c == 's' {
        Some('ˢ')
    } else if c == 't' {
        Some('ᵗ')
    } else if c == 'u' {
        Some('ᵘ')
    } else if c == 'v' {
        Some('ᵛ')
    } else if c == 'w' {
        Some('ʷ')
    } else if c == 'x' {
        Some('ˣ')
    } else if c == 'y' {
        Some('ʸ')
    } else if c == 'z' {
        Some('ᶻ')
    } else if c == '⊤' {
        Some('ᵀ')
    } else {
        None
    }
}

/// A raised character.
pub fn superscript(c: char) -> (r: Option<char>)
    ensures
        r == superscript_of(c),
{
    if c == '0' {
        Some('⁰')
    } else if c == '1' {
        Some('¹')
    } else if c == '2' {
        Some('²')
    } else if c == '3' {
        Some('³')
    } else if c == '4' {
        Some('⁴')
    } else if c == '5' {
        Some('⁵')
    } else if c == '6' {
        Some('⁶')
    } else if c == '7' {
        Some('⁷')
    } else if c == '8' {
        Some('⁸')
    } else if c == '9' {
        Some('⁹')
    } else if c == '+' {
        Some('⁺')
    } else if c == '-' {
        Some('⁻')
    } else if c == '=' {
        Some('⁼')
    } else if c == '(' {
        Some('⁽')
    } else if c == ')' {
        Some('⁾')
    } else if c == 'a' {
        Some('ᵃ')
    } else if c == 'b' {
        Some('ᵇ')
    } else if c == 'c' {
        Some('ᶜ')
    } else if c == 'd' {
        Some('ᵈ')
    } else if c == 'e' {
        Some('ᵉ')
    } else if c == 'f' {
        Some('ᶠ')
    } else if c == 'g' {
        Some('ᵍ')
    } else if c == 'h' {
        Some('ʰ')
    } else if c == 'i' {
        Some('ⁱ')
    } else if c == 'j' {
        Some('ʲ')
    } else if c == 'k' {
        Some('ᵏ')
    } else if c == 'l' {
        Some('ˡ')
    } else if c == 'm' {
        Some('ᵐ')
    } else if c == 'n' {
        Some('ⁿ')
    } else if c == 'o' {
        Some('ᵒ')
    } else if c == 'p' {
        Some('ᵖ')
    } else if c == 'r' {
        Some('ʳ')
    } else if c == 's' {
        Some('ˢ')
    } else if c == 't' {
        Some('ᵗ')
    } else if c == 'u' {
        Some('ᵘ')
    } else if c == 'v' {
        Some('ᵛ')
    } else if c == 'w' {
        Some('ʷ')
    } else if c == 'x' {
        Some('ˣ')
    } else if c == 'y' {
        Some('ʸ')
    } else if c == 'z' {
        Some('ᶻ')
    } else if c == '⊤' {
        Some('ᵀ')
    } else {
        None
    }
}

/// A lowered character.
pub open spec fn subscript_of(c: char) -> Option<char> {
    if c == '0' {
        Some('₀')
    } else if c == '1' {
        Some('₁')
    } else if c == '2' {
        Some('₂')
    } else if c == '3' {
        Some('₃')
    } else if c == '4' {
        Some('₄')
    } else if c == '5' {
        Some('₅')
    } else if c == '6' {
        Some('₆')
    } else if c == '7' {
        Some('₇')
    } else if c == '8' {
        Some('₈')
    } else if c == '9' {
        Some('₉')
    } else if c == '+' {
        Some('₊')
    } else if c == '-' {
        Some('₋')
    } else if c == '=' {
        Some('₌')
    } else if c == '(' {
        Some('₍')
    } else if c == ')' {
        Some('₎')
    } else if c == 'a' {
        Some('ₐ')
    } else if c == 'e' {
        Some('ₑ')
    } else if c == 'h' {
        Some('ₕ')
    } else if c == 'i' {
        Some('ᵢ')
    } else if c == 'j' {
        Some('ⱼ')
    } else if c == 'k' {
        Some('ₖ')
    } else if c == 'l' {
        Some('ₗ')
    } else if c == 'm' {
        Some('ₘ')
    } else if c == 'n' {
        Some('ₙ')
    } else if c == 'o' {
        Some('ₒ')
    } else if c == 'p' {
        Some('ₚ')
    } else if c == 'r' {
        Some('ᵣ')
    } else if c == 's' {
        Some('ₛ')
    } else if c == 't' {
        Some('ₜ')
    } else if c == 'u' {
        Some('ᵤ')
    } else if c == 'v' {
        Some('ᵥ')
    } else if c == 'x' {
        Some('ₓ')
    } else {
        None
    }
}

/// A lowered character.
pub fn subscript(c: char) -> (r: Option<char>)
    ensures
        r == subscript_of(c),
{
    if c == '0' {
        Some('₀')
    } else if c == '1' {
        Some('₁')
    } else if c == '2' {
        Some('₂')
    } else if c == '3' {
        Some('₃')
    } else if c == '4' {
        Some('₄')
    } else if c == '5' {
        Some('₅')
    } else if c == '6' {
        Some('₆')
    } else if c == '7' {
        Some('₇')
    } else if c == '8' {
        Some('₈')
    } else if c == '9' {
        Some('₉')
    } else if c == '+' {
        Some('₊')
    } else if c == '-' {
        Some('₋')
    } else if c == '=' {
        Some('₌')
    } else if c == '(' {
        Some('₍')
    } else if c == ')' {
        Some('₎')
    } else if c == 'a' {
        Some('ₐ')
    } else if c == 'e' {
        Some('ₑ')
    } else if c == 'h' {
        Some('ₕ')
    } else if c == 'i' {
        Some('ᵢ')
    } else if c == 'j' {
        Some('ⱼ')
    } else if c == 'k' {
        Some('ₖ')
    } else if c == 'l' {
        Some('ₗ')
    } else if c == 'm' {
        Some('ₘ')
    } else if c == 'n' {
        Some('ₙ')
    } else if c == 'o' {
        Some('ₒ')
    } else if c == 'p' {
        Some('ₚ')
    } else if c == 'r' {
        Some('ᵣ')
    } else if c == 's' {
        Some('ₛ')
    } else if c == 't' {
        Some('ₜ')
    } else if c == 'u' {
        Some('ᵤ')
    } else if c == 'v' {
        Some('ᵥ')
    } else if c == 'x' {
        Some('ₓ')
    } else {
        None
    }
}

} // verus!
