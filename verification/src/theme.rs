//! The LCN colour palette as CSS `@define-color` tokens, in light and dark versions, and
//! the theme preference (three modes, default Auto = follow the system).
//!
//! The accent veil changes opacity with the theme (0.10 light / 0.14 dark): both values
//! are in the table, never a single one.
use vstd::prelude::*;

use crate::text::{chars_eq, chars_of, push_str, string_from_chars};

verus! {

/// A colour token of the palette, in light and dark versions.
#[derive(Debug, Clone, Copy, PartialEq, Eq)]
pub struct Token {
    /// GTK CSS colour name (`lcn_` prefix, so as not to collide with Adwaita colours).
    pub name: &'static str,
    pub light: &'static str,
    pub dark: &'static str,
}

/// The whole palette, in order.
pub open spec fn palette() -> Seq<Token> {
    seq![
        Token { name: "lcn_bg", light: "#f4eee0", dark: "#14110d" },
        Token { name: "lcn_surface", light: "#faf6ec", dark: "#1c1813" },
        Token { name: "lcn_surface_raised", light: "#fdfbf4", dark: "#241f18" },
        Token { name: "lcn_ink", light: "#1b1813", dark: "#ece4d2" },
        Token { name: "lcn_ink_soft", light: "#4a4336", dark: "#c9bfa9" },
        Token { name: "lcn_muted", light: "#6d644f", dark: "#938973" },
        Token { name: "lcn_line", light: "#d9cfba", dark: "#322c22" },
        Token { name: "lcn_line_strong", light: "#b8ac92", dark: "#4c4434" },
        Token { name: "lcn_accent", light: "#0c84cc", dark: "#36a6df" },
        Token { name: "lcn_accent_ink", light: "#0f5c8c", dark: "#4cb4e6" },
        Token { name: "lcn_accent_fill", light: "#0d5685", dark: "#2f9fd8" },
        Token { name: "lcn_accent_contrast", light: "#f6efe2", dark: "#14110d" },
        Token { name: "lcn_accent_veil", light: "rgba(12,132,204,0.10)", dark: "rgba(54,166,223,0.14)" },
        Token { name: "lcn_direct", light: "#b5371a", dark: "#ef6a40" },
        Token { name: "lcn_warn", light: "#8a5e0c", dark: "#cfa14a" },
    ]
}

/// The palette (the ember `lcn_direct` is reserved to the filled DIRECT pill).
pub fn tokens() -> (r: Vec<Token>)
    ensures
        r@ == palette(),
{
    let mut v: Vec<Token> = Vec::new();
    v.push(Token { name: "lcn_bg", light: "#f4eee0", dark: "#14110d" });
    v.push(Token { name: "lcn_surface", light: "#faf6ec", dark: "#1c1813" });
    v.push(Token { name: "lcn_surface_raised", light: "#fdfbf4", dark: "#241f18" });
    v.push(Token { name: "lcn_ink", light: "#1b1813", dark: "#ece4d2" });
    v.push(Token { name: "lcn_ink_soft", light: "#4a4336", dark: "#c9bfa9" });
    v.push(Token { name: "lcn_muted", light: "#6d644f", dark: "#938973" });
    v.push(Token { name: "lcn_line", light: "#d9cfba", dark: "#322c22" });
    v.push(Token { name: "lcn_line_strong", light: "#b8ac92", dark: "#4c4434" });
    v.push(Token { name: "lcn_accent", light: "#0c84cc", dark: "#36a6df" });
    v.push(Token { name: "lcn_accent_ink", light: "#0f5c8c", dark: "#4cb4e6" });
    v.push(Token { name: "lcn_accent_fill", light: "#0d5685", dark: "#2f9fd8" });
    v.push(Token { name: "lcn_accent_contrast", light: "#f6efe2", dark: "#14110d" });
    v.push(
        Token { name: "lcn_accent_veil", light: "rgba(12,132,204,0.10)", dark: "rgba(54,166,223,0.14)" },
    );
    v.push(Token { name: "lcn_direct", light: "#b5371a", dark: "#ef6a40" });
    v.push(Token { name: "lcn_warn", light: "#8a5e0c", dark: "#cfa14a" });
    assert(v@ =~= palette());
    v
}

/// The value of a token in the requested mode.
pub open spec fn token_value(t: Token, dark: bool) -> Seq<char> {
    if dark {
        t.dark@
    } else {
        t.light@
    }
}

/// `@define-color <name> <value>;` lines for `ts`, in order.
pub open spec fn define_colors(ts: Seq<Token>, dark: bool) -> Seq<char>
    decreases ts.len(),
{
    if ts.len() == 0 {
        Seq::empty()
    } else {
        define_colors(ts.drop_last(), dark) + "@define-color "@ + ts.last().name@ + " "@
            + token_value(ts.last(), dark) + ";\n"@
    }
}

/// The complete style sheet for the requested mode: the palette's `@define-color` lines,
/// a blank line, then the static rules `base_css` (which refer to those colours).
pub fn full_css(dark: bool, base_css: &str) -> (r: String)
    ensures
        r@ == define_colors(palette(), dark) + seq!['\n'] + base_css@,
{
    let ts = tokens();
    let mut css: Vec<char> = Vec::new();
    let mut i: usize = 0;
    proof {
        assert(ts@.take(0) =~= Seq::<Token>::empty());
    }
    while i < ts.len()
        invariant
            i <= ts@.len(),
            ts@ == palette(),
            css@ == define_colors(ts@.take(i as int), dark),
        decreases ts@.len() - i,
    {
        let t = ts[i];
        let value = if dark {
            t.dark
        } else {
            t.light
        };
        push_str(&mut css, "@define-color ");
        push_str(&mut css, t.name);
        push_str(&mut css, " ");
        push_str(&mut css, value);
        push_str(&mut css, ";\n");
        proof {
            assert(ts@.take(i + 1).drop_last() == ts@.take(i as int));
            assert(ts@.take(i + 1).last() == t);
        }
        i += 1;
    }
    proof {
        assert(ts@.take(i as int) == ts@);
    }
    css.push('\n');
    push_str(&mut css, base_css);
    string_from_chars(css.as_slice())
}

/// Whether the dark sheet applies: a forced "dark" or "light" wins, anything else follows
/// the system.
pub fn is_dark(forced: Option<&str>, system_dark: bool) -> (r: bool)
    ensures
        r == (match forced {
            Some(f) => if f@ == "dark"@ {
                true
            } else if f@ == "light"@ {
                false
            } else {
                system_dark
            },
            None => system_dark,
        }),
{
    match forced {
        Some(f) => {
            let c = chars_of(f);
            let d = chars_of("dark");
            let l = chars_of("light");
            if chars_eq(c.as_slice(), d.as_slice()) {
                true
            } else if chars_eq(c.as_slice(), l.as_slice()) {
                false
            } else {
                system_dark
            }
        },
        None => system_dark,
    }
}

/// Persisted theme preference (three modes, default Auto = follow the system).
#[derive(Debug, Clone, Copy, PartialEq, Eq, Structural)]
pub enum ThemePreference {
    Auto,
    Light,
    Dark,
}

impl ThemePreference {
    /// The text stored in the settings for this preference.
    pub open spec fn setting_spec(self) -> Seq<char> {
        match self {
            ThemePreference::Auto => "auto"@,
            ThemePreference::Light => "light"@,
            ThemePreference::Dark => "dark"@,
        }
    }

    /// The text stored in the settings for this preference: "auto", "light" or "dark".
    pub fn setting_text(self) -> (r: &'static str)
        ensures
            r@ == self.setting_spec(),
    {
        match self {
            ThemePreference::Auto => "auto",
            ThemePreference::Light => "light",
            ThemePreference::Dark => "dark",
        }
    }

    /// The preference a stored text names, if any.
    pub fn from_setting(text: &str) -> (r: Option<ThemePreference>)
        ensures
            r == (if text@ == "light"@ {
                Some(ThemePreference::Light)
            } else if text@ == "dark"@ {
                Some(ThemePreference::Dark)
            } else if text@ == "auto"@ {
                Some(ThemePreference::Auto)
            } else {
                None
            }),
    {
        let c = chars_of(text);
        let light = chars_of("light");
        let dark = chars_of("dark");
        let auto = chars_of("auto");
        if chars_eq(c.as_slice(), light.as_slice()) {
            Some(ThemePreference::Light)
        } else if chars_eq(c.as_slice(), dark.as_slice()) {
            Some(ThemePreference::Dark)
        } else if chars_eq(c.as_slice(), auto.as_slice()) {
            Some(ThemePreference::Auto)
        } else {
            None
        }
    }

    /// The preference restored at start-up: the stored one, Auto when absent or unknown.
    pub fn restore(stored: Option<&str>) -> (r: ThemePreference)
        ensures
            r == (match stored {
                Some(t) => if t@ == "light"@ {
                    ThemePreference::Light
                } else if t@ == "dark"@ {
                    ThemePreference::Dark
                } else {
                    ThemePreference::Auto
                },
                None => ThemePreference::Auto,
            }),
    {
        match stored {
            Some(t) => match ThemePreference::from_setting(t) {
                Some(p) => p,
                None => ThemePreference::Auto,
            },
            None => ThemePreference::Auto,
        }
    }
}

/// A stored preference is read back as itself.
pub proof fn theme_setting_round_trip(p: ThemePreference)
    ensures
        (if p.setting_spec() == "light"@ {
            Some(ThemePreference::Light)
        } else if p.setting_spec() == "dark"@ {
            Some(ThemePreference::Dark)
        } else if p.setting_spec() == "auto"@ {
            Some(ThemePreference::Auto)
        } else {
            None
        }) == Some(p),
{
    reveal_strlit("light");
    reveal_strlit("dark");
    reveal_strlit("auto");
    assert("light"@ != "dark"@ && "light"@ != "auto"@ && "dark"@ != "auto"@) by {
        assert("light"@.len() != "dark"@.len());
        assert("light"@.len() != "auto"@.len());
        assert("dark"@[0] != "auto"@[0]);
    }
}

} // verus!
