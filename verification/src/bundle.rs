//! Compiled-in fallback flags.
//!
//! Simple, license-clean SVGs shipped with the daemon, so that a fresh
//! install always renders something before any flag pack is installed.

use vstd::prelude::*;

use crate::text::{chars_of, eq_lit};

verus! {

/// English: St George's cross on white.
pub const EN_SVG: &'static str = "<svg xmlns='http://www.w3.org/2000/svg' width='60' height='60' viewBox='0 0 60 60'><rect width='60' height='60' fill='#ffffff'/><rect x='24' width='12' height='60' fill='#c8102e'/><rect y='24' width='60' height='12' fill='#c8102e'/></svg>";

/// Russian: white, blue and red horizontal bands.
pub const RU_SVG: &'static str = "<svg xmlns='http://www.w3.org/2000/svg' width='60' height='60' viewBox='0 0 60 60'><rect width='60' height='20' fill='#ffffff'/><rect y='20' width='60' height='20' fill='#0039a6'/><rect y='40' width='60' height='20' fill='#d52b1e'/></svg>";

/// Ukrainian: blue over yellow.
pub const UA_SVG: &'static str = "<svg xmlns='http://www.w3.org/2000/svg' width='60' height='60' viewBox='0 0 60 60'><rect width='60' height='30' fill='#0057b7'/><rect y='30' width='60' height='30' fill='#ffd700'/></svg>";

/// Belarusian: red over green, with a white hoist stripe.
pub const BY_SVG: &'static str = "<svg xmlns='http://www.w3.org/2000/svg' width='60' height='60' viewBox='0 0 60 60'><rect width='60' height='40' fill='#c8313e'/><rect y='40' width='60' height='20' fill='#4aa657'/><rect width='8' height='60' fill='#ffffff'/></svg>";

/// Kazakh: a golden sun on sky blue.
pub const KZ_SVG: &'static str = "<svg xmlns='http://www.w3.org/2000/svg' width='60' height='60' viewBox='0 0 60 60'><rect width='60' height='60' fill='#00afca'/><circle cx='30' cy='28' r='12' fill='#fec50c'/></svg>";

/// German: black, red and gold horizontal bands.
pub const DE_SVG: &'static str = "<svg xmlns='http://www.w3.org/2000/svg' width='60' height='60' viewBox='0 0 60 60'><rect width='60' height='20' fill='#000000'/><rect y='20' width='60' height='20' fill='#dd0000'/><rect y='40' width='60' height='20' fill='#ffce00'/></svg>";

/// French: blue, white and red vertical bands.
pub const FR_SVG: &'static str = "<svg xmlns='http://www.w3.org/2000/svg' width='60' height='60' viewBox='0 0 60 60'><rect width='20' height='60' fill='#0055a4'/><rect x='20' width='20' height='60' fill='#ffffff'/><rect x='40' width='20' height='60' fill='#ef4135'/></svg>";

/// The logical names of the builtin icons, in order.
pub open spec fn builtin_names() -> Seq<Seq<char>> {
    seq!["en"@, "ru"@, "ua"@, "by"@, "kz"@, "de"@, "fr"@]
}

/// The stable ids (file names) of the builtin icons, in order.
pub open spec fn builtin_ids() -> Seq<Seq<char>> {
    seq!["en.svg"@, "ru.svg"@, "ua.svg"@, "by.svg"@, "kz.svg"@, "de.svg"@, "fr.svg"@]
}

/// The SVG texts of the builtin icons, in order.
pub open spec fn builtin_texts() -> Seq<Seq<char>> {
    seq![EN_SVG@, RU_SVG@, UA_SVG@, BY_SVG@, KZ_SVG@, DE_SVG@, FR_SVG@]
}

/// Position of `name` among the builtin names, or -1.
pub open spec fn builtin_index(name: Seq<char>) -> int {
    if name == "en"@ {
        0
    } else if name == "ru"@ {
        1
    } else if name == "ua"@ {
        2
    } else if name == "by"@ {
        3
    } else if name == "kz"@ {
        4
    } else if name == "de"@ {
        5
    } else if name == "fr"@ {
        6
    } else {
        -1
    }
}

/// The id of the builtin icon called `name`, if there is one.
pub open spec fn builtin_id(name: Seq<char>) -> Option<Seq<char>> {
    let i = builtin_index(name);
    if i >= 0 {
        Some(builtin_ids()[i])
    } else {
        None
    }
}

/// The bytes of the builtin icon called `name` (its SVG text as UTF-8).
pub open spec fn builtin_bytes(name: Seq<char>) -> Seq<u8> {
    vstd::utf8::encode_utf8(builtin_texts()[builtin_index(name)])
}

/// Looks up a builtin icon by logical name (`"en"`, `"ru"`, ...):
/// its stable id and bytes.
pub fn lookup(name: &str) -> (r: Option<(&'static str, &'static [u8])>)
    ensures
        match r {
            Some((id, bytes)) => builtin_id(name@) == Some(id@) && bytes@ == builtin_bytes(name@),
            None => builtin_id(name@) is None,
        },
{
    let n = chars_of(name);
    if eq_lit(&n, "en") {
        Some(("en.svg", EN_SVG.as_bytes()))
    } else if eq_lit(&n, "ru") {
        Some(("ru.svg", RU_SVG.as_bytes()))
    } else if eq_lit(&n, "ua") {
        Some(("ua.svg", UA_SVG.as_bytes()))
    } else if eq_lit(&n, "by") {
        Some(("by.svg", BY_SVG.as_bytes()))
    } else if eq_lit(&n, "kz") {
        Some(("kz.svg", KZ_SVG.as_bytes()))
    } else if eq_lit(&n, "de") {
        Some(("de.svg", DE_SVG.as_bytes()))
    } else if eq_lit(&n, "fr") {
        Some(("fr.svg", FR_SVG.as_bytes()))
    } else {
        None
    }
}

/// Every builtin icon, as `(name, id, bytes)`, in order.
pub fn all() -> (r: Vec<(&'static str, &'static str, &'static [u8])>)
    ensures
        r@.len() == 7,
        forall|i: int|
            0 <= i < 7 ==> (#[trigger] r@[i]).0@ == builtin_names()[i] && r@[i].1@
                == builtin_ids()[i] && r@[i].2@ == vstd::utf8::encode_utf8(builtin_texts()[i]),
{
    let mut v: Vec<(&'static str, &'static str, &'static [u8])> = Vec::new();
    v.push(("en", "en.svg", EN_SVG.as_bytes()));
    v.push(("ru", "ru.svg", RU_SVG.as_bytes()));
    v.push(("ua", "ua.svg", UA_SVG.as_bytes()));
    v.push(("by", "by.svg", BY_SVG.as_bytes()));
    v.push(("kz", "kz.svg", KZ_SVG.as_bytes()));
    v.push(("de", "de.svg", DE_SVG.as_bytes()));
    v.push(("fr", "fr.svg", FR_SVG.as_bytes()));
    v
}

/// What `lookup` and `all` agree on: the `i`-th icon that `all` lists is
/// found by its name, with the same id and bytes, and its id is its name
/// followed by `.svg`.
pub proof fn lemma_lookup_agrees_with_all(i: int)
    requires
        0 <= i < 7,
    ensures
        builtin_index(builtin_names()[i]) == i,
        builtin_id(builtin_names()[i]) == Some(builtin_ids()[i]),
        builtin_bytes(builtin_names()[i]) == vstd::utf8::encode_utf8(builtin_texts()[i]),
        builtin_ids()[i] == builtin_names()[i] + ".svg"@,
{
    reveal_strlit("en");
    reveal_strlit("ru");
    reveal_strlit("ua");
    reveal_strlit("by");
    reveal_strlit("kz");
    reveal_strlit("de");
    reveal_strlit("fr");
    reveal_strlit("en.svg");
    reveal_strlit("ru.svg");
    reveal_strlit("ua.svg");
    reveal_strlit("by.svg");
    reveal_strlit("kz.svg");
    reveal_strlit("de.svg");
    reveal_strlit("fr.svg");
    reveal_strlit(".svg");
    assert("en"@[0] == 'e' && "ru"@[0] == 'r' && "ua"@[0] == 'u' && "by"@[0] == 'b');
    assert("kz"@[0] == 'k' && "de"@[0] == 'd' && "fr"@[0] == 'f');
    assert(builtin_ids()[i] =~= builtin_names()[i] + ".svg"@);
    assert(builtin_index(builtin_names()[i]) == i) by {
        if i == 0 {
        } else if i == 1 {
        } else if i == 2 {
        } else if i == 3 {
        } else if i == 4 {
        } else if i == 5 {
        } else {
        }
    }
}

/// `lookup` finds exactly the names that `all` lists.
pub proof fn lemma_lookup_finds_only_builtins(name: Seq<char>)
    ensures
        builtin_id(name) is Some <==> exists|i: int| 0 <= i < 7 && builtin_names()[i] == name,
{
    if builtin_id(name) is Some {
        let i = builtin_index(name);
        assert(builtin_names()[i] == name);
    }
    if exists|i: int| 0 <= i < 7 && builtin_names()[i] == name {
        let i = choose|i: int| 0 <= i < 7 && builtin_names()[i] == name;
        lemma_lookup_agrees_with_all(i);
    }
}

} // verus!
