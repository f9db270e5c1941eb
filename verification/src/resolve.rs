//! The placeholder resolver: substitutes the symbolic tokens of a manifest
//! path template with concrete paths of one compatibility prefix, by a single
//! left-to-right token scan. A template with a token this system cannot
//! ground, or whose substituted result still holds a `<`, resolves to nothing.

use vstd::prelude::*;

use crate::config::{spec_drive_c_path, spec_user_path, Config};
use crate::strutil::{has_at, starts_with_from, str_contains_char};

verus! {

broadcast use vstd::string::group_string_axioms;

/// A nonempty token occurs at the start of the sequence.
pub open spec fn tok_at(t: Seq<char>, pat: Seq<char>) -> bool {
    has_at(t, 0, pat) && pat.len() > 0
}

/// Prepends a substitution to the result of resolving the rest of a template.
pub open spec fn glue(sub: Seq<char>, rest: Option<Seq<char>>) -> Option<Seq<char>> {
    match rest {
        Some(r) => Some(sub + r),
        None => None,
    }
}

/// Substitutes every recognized token of the template `t`, given the drive
/// root `d`, the user-profile root `u` and the game identifier `g` of one
/// prefix. Yields nothing if a `<` is met that does not start a recognized
/// token; in particular the tokens this system cannot ground (an install
/// root, a store user identifier) are not recognized.
pub open spec fn spec_subst(t: Seq<char>, d: Seq<char>, u: Seq<char>, g: Seq<char>) -> Option<
    Seq<char>,
>
    decreases t.len(),
{
    if t.len() == 0 {
        Some(Seq::empty())
    } else if t[0] != '<' {
        glue(seq![t[0]], spec_subst(t.skip(1), d, u, g))
    } else if tok_at(t, "<winAppData>"@) {
        glue(
            u + "/AppData/Roaming"@,
            spec_subst(t.skip("<winAppData>"@.len() as int), d, u, g),
        )
    } else if tok_at(t, "<winLocalAppData>"@) {
        glue(
            u + "/AppData/Local"@,
            spec_subst(t.skip("<winLocalAppData>"@.len() as int), d, u, g),
        )
    } else if tok_at(t, "<winLocalAppDataLow>"@) {
        glue(
            u + "/AppData/LocalLow"@,
            spec_subst(t.skip("<winLocalAppDataLow>"@.len() as int), d, u, g),
        )
    } else if tok_at(t, "<winDocuments>"@) {
        glue(u + "/Documents"@, spec_subst(t.skip("<winDocuments>"@.len() as int), d, u, g))
    } else if tok_at(t, "<winPublic>"@) {
        glue(d + "/users/Public"@, spec_subst(t.skip("<winPublic>"@.len() as int), d, u, g))
    } else if tok_at(t, "<winProgramData>"@) {
        glue(
            d + "/ProgramData"@,
            spec_subst(t.skip("<winProgramData>"@.len() as int), d, u, g),
        )
    } else if tok_at(t, "<winDir>"@) {
        glue(d + "/windows"@, spec_subst(t.skip("<winDir>"@.len() as int), d, u, g))
    } else if tok_at(t, "<home>"@) {
        glue(u, spec_subst(t.skip("<home>"@.len() as int), d, u, g))
    } else if tok_at(t, "<osUserName>"@) {
        glue("steamuser"@, spec_subst(t.skip("<osUserName>"@.len() as int), d, u, g))
    } else if tok_at(t, "<storeGameId>"@) {
        glue(g, spec_subst(t.skip("<storeGameId>"@.len() as int), d, u, g))
    } else if tok_at(t, "<xdgData>"@) {
        glue(u + "/.local/share"@, spec_subst(t.skip("<xdgData>"@.len() as int), d, u, g))
    } else if tok_at(t, "<xdgConfig>"@) {
        glue(u + "/.config"@, spec_subst(t.skip("<xdgConfig>"@.len() as int), d, u, g))
    } else {
        None
    }
}

/// The resolved path of a template: every token substituted, and nothing if
/// the substituted result still holds a `<` character.
pub open spec fn spec_resolve(t: Seq<char>, d: Seq<char>, u: Seq<char>, g: Seq<char>) -> Option<
    Seq<char>,
> {
    match spec_subst(t, d, u, g) {
        Some(r) => if r.contains('<') {
            None
        } else {
            Some(r)
        },
        None => None,
    }
}

/// The resolved path of a template for the prefix `game_id` under the Steam
/// root `steam`.
pub open spec fn spec_resolve_for(t: Seq<char>, steam: Seq<char>, game_id: Seq<char>) -> Option<
    Seq<char>,
> {
    spec_resolve(t, spec_drive_c_path(steam, game_id), spec_user_path(steam, game_id), game_id)
}

/// Law: resolution is a pure function of the template, the fixed roots and
/// the prefix identifier; two resolutions of identical inputs are identical.
pub proof fn lemma_resolve_pure(
    t: Seq<char>,
    steam: Seq<char>,
    game_id: Seq<char>,
    r1: Option<Seq<char>>,
    r2: Option<Seq<char>>,
)
    requires
        r1 == spec_resolve_for(t, steam, game_id),
        r2 == spec_resolve_for(t, steam, game_id),
    ensures
        r1 == r2,
{
}

/// Law: a path that resolves never retains a `<` character; a template whose
/// substituted result would, resolves to nothing instead.
pub proof fn lemma_resolved_has_no_placeholder(t: Seq<char>, steam: Seq<char>, game_id: Seq<char>)
    ensures
        spec_resolve_for(t, steam, game_id) matches Some(r) ==> !r.contains('<'),
{
}

/// Occurrence of a pattern at a position of a sequence is occurrence at the
/// start of the corresponding suffix.
proof fn lemma_has_at_skip(t: Seq<char>, i: int, pat: Seq<char>)
    requires
        0 <= i <= t.len(),
    ensures
        has_at(t, i, pat) == has_at(t.skip(i), 0, pat),
{
    if i + pat.len() <= t.len() {
        assert(t.skip(i).subrange(0, pat.len() as int) =~= t.subrange(i, i + pat.len() as int));
    }
}

/// One token consumed: the pending output grows by the token's substitution
/// and the scan continues after the token.
proof fn lemma_token_step(
    t: Seq<char>,
    d: Seq<char>,
    u: Seq<char>,
    g: Seq<char>,
    i: int,
    out_old: Seq<char>,
    out_new: Seq<char>,
    pat: Seq<char>,
    sub: Seq<char>,
)
    requires
        0 <= i,
        i + pat.len() <= t.len(),
        spec_subst(t.skip(i), d, u, g) == glue(
            sub,
            spec_subst(t.skip(i + pat.len() as int), d, u, g),
        ),
        match spec_subst(t.skip(i), d, u, g) {
            Some(rest) => spec_subst(t, d, u, g) == Some(out_old + rest),
            None => spec_subst(t, d, u, g) is None,
        },
        out_new == out_old + sub,
    ensures
        match spec_subst(t.skip(i + pat.len() as int), d, u, g) {
            Some(rest) => spec_subst(t, d, u, g) == Some(out_new + rest),
            None => spec_subst(t, d, u, g) is None,
        },
{
    match spec_subst(t.skip(i + pat.len() as int), d, u, g) {
        Some(rest) => {
            assert(out_old + (sub + rest) =~= (out_old + sub) + rest);
        },
        None => {},
    }
}

/// The emulated Windows drive root of the prefix for `game_id`.
pub fn get_proton_drive_c(config: &Config, game_id: &str) -> (r: String)
    ensures
        r@ == spec_drive_c_path(config.data.steam_path@, game_id@),
{
    config.drive_c_path(game_id)
}

/// The user-profile root of the prefix for `game_id`.
pub fn get_proton_steamuser(config: &Config, game_id: &str) -> (r: String)
    ensures
        r@ == spec_user_path(config.data.steam_path@, game_id@),
{
    config.user_path(game_id)
}

/// Resolves manifest path placeholders relative to a specific prefix.
/// Yields nothing if a placeholder is unresolvable in this context or if the
/// substituted result still holds a `<` character.
pub fn resolve_manifest_path(manifest_path: &str, config: &Config, game_id: &str) -> (r: Option<
    String,
>)
    ensures
        match r {
            Some(p) => spec_resolve_for(manifest_path@, config.data.steam_path@, game_id@)
                == Some(p@),
            None => spec_resolve_for(manifest_path@, config.data.steam_path@, game_id@) is None,
        },
{
    let drive = config.drive_c_path(game_id);
    let user = config.user_path(game_id);
    let ghost t = manifest_path@;
    let ghost d = drive@;
    let ghost u = user@;
    let ghost g = game_id@;
    let len = manifest_path.unicode_len();
    let mut out = String::new();
    let mut i: usize = 0;
    proof {
        assert(t.skip(0) =~= t);
    }
    while i < len
        invariant
            len == t.len(),
            0 <= i <= len,
            t == manifest_path@,
            d == drive@,
            d == spec_drive_c_path(config.data.steam_path@, game_id@),
            u == user@,
            u == spec_user_path(config.data.steam_path@, game_id@),
            g == game_id@,
            match spec_subst(t.skip(i as int), d, u, g) {
                Some(rest) => spec_subst(t, d, u, g) == Some(out@ + rest),
                None => spec_subst(t, d, u, g) is None,
            },
        decreases len - i,
    {
        let c = manifest_path.get_char(i);
        proof {
            assert(t.skip(i as int)[0] == t[i as int]);
            assert forall|p: Seq<char>|
                has_at(t, i as int, p) == has_at(t.skip(i as int), 0, p) by {
                lemma_has_at_skip(t, i as int, p);
            }
            assert forall|k: int| 0 <= k && i + k <= t.len() implies t.skip(i as int).skip(k) == t.skip(
                i as int + k,
            ) by {
                assert(t.skip(i as int).skip(k) =~= t.skip(i as int + k));
            }
        }
        if c != '<' {
            let ghost out_old = out@;
            out.append(manifest_path.substring_char(i, i + 1));
            proof {
                assert(seq![t[i as int]] =~= t.subrange(i as int, i as int + 1));
                assert(out@ =~= out_old + seq![t[i as int]]);
                assert(spec_subst(t.skip(i as int), d, u, g) == glue(
                    seq![t[i as int]],
                    spec_subst(t.skip(i as int + 1), d, u, g),
                ));
                lemma_token_step(t, d, u, g, i as int, out_old, out@, seq![t[i as int]], seq![t[i as int]]);
            }
            i = i + 1;
        } else if starts_with_from(manifest_path, i, "<winAppData>") {
            let ghost out_old = out@;
            let ghost pat = "<winAppData>"@;
            let ghost sub = u + "/AppData/Roaming"@;
            proof {
                reveal_strlit("<winAppData>");
                assert(spec_subst(t.skip(i as int), d, u, g) == glue(
                    sub,
                    spec_subst(t.skip(i as int + pat.len() as int), d, u, g),
                ));
            }
            out.append(user.as_str());
            out.append("/AppData/Roaming");
            let l = "<winAppData>".unicode_len();
            proof {
                assert(out@ =~= out_old + sub);
                lemma_token_step(t, d, u, g, i as int, out_old, out@, pat, sub);
            }
            i = i + l;
        } else if starts_with_from(manifest_path, i, "<winLocalAppData>") {
            let ghost out_old = out@;
            let ghost pat = "<winLocalAppData>"@;
            let ghost sub = u + "/AppData/Local"@;
            proof {
                reveal_strlit("<winLocalAppData>");
                assert(spec_subst(t.skip(i as int), d, u, g) == glue(
                    sub,
                    spec_subst(t.skip(i as int + pat.len() as int), d, u, g),
                ));
            }
            out.append(user.as_str());
            out.append("/AppData/Local");
            let l = "<winLocalAppData>".unicode_len();
            proof {
                assert(out@ =~= out_old + sub);
                lemma_token_step(t, d, u, g, i as int, out_old, out@, pat, sub);
            }
            i = i + l;
        } else if starts_with_from(manifest_path, i, "<winLocalAppDataLow>") {
            let ghost out_old = out@;
            let ghost pat = "<winLocalAppDataLow>"@;
            let ghost sub = u + "/AppData/LocalLow"@;
            proof {
                reveal_strlit("<winLocalAppDataLow>");
                assert(spec_subst(t.skip(i as int), d, u, g) == glue(
                    sub,
                    spec_subst(t.skip(i as int + pat.len() as int), d, u, g),
                ));
            }
            out.append(user.as_str());
            out.append("/AppData/LocalLow");
            let l = "<winLocalAppDataLow>".unicode_len();
            proof {
                assert(out@ =~= out_old + sub);
                lemma_token_step(t, d, u, g, i as int, out_old, out@, pat, sub);
            }
            i = i + l;
        } else if starts_with_from(manifest_path, i, "<winDocuments>") {
            let ghost out_old = out@;
            let ghost pat = "<winDocuments>"@;
            let ghost sub = u + "/Documents"@;
            proof {
                reveal_strlit("<winDocuments>");
                assert(spec_subst(t.skip(i as int), d, u, g) == glue(
                    sub,
                    spec_subst(t.skip(i as int + pat.len() as int), d, u, g),
                ));
            }
            out.append(user.as_str());
            out.append("/Documents");
            let l = "<winDocuments>".unicode_len();
            proof {
                assert(out@ =~= out_old + sub);
                lemma_token_step(t, d, u, g, i as int, out_old, out@, pat, sub);
            }
            i = i + l;
        } else if starts_with_from(manifest_path, i, "<winPublic>") {
            let ghost out_old = out@;
            let ghost pat = "<winPublic>"@;
            let ghost sub = d + "/users/Public"@;
            proof {
                reveal_strlit("<winPublic>");
                assert(spec_subst(t.skip(i as int), d, u, g) == glue(
                    sub,
                    spec_subst(t.skip(i as int + pat.len() as int), d, u, g),
                ));
            }
            out.append(drive.as_str());
            out.append("/users/Public");
            let l = "<winPublic>".unicode_len();
            proof {
                assert(out@ =~= out_old + sub);
                lemma_token_step(t, d, u, g, i as int, out_old, out@, pat, sub);
            }
            i = i + l;
        } else if starts_with_from(manifest_path, i, "<winProgramData>") {
            let ghost out_old = out@;
            let ghost pat = "<winProgramData>"@;
            let ghost sub = d + "/ProgramData"@;
            proof {
                reveal_strlit("<winProgramData>");
                assert(spec_subst(t.skip(i as int), d, u, g) == glue(
                    sub,
                    spec_subst(t.skip(i as int + pat.len() as int), d, u, g),
                ));
            }
            out.append(drive.as_str());
            out.append("/ProgramData");
            let l = "<winProgramData>".unicode_len();
            proof {
                assert(out@ =~= out_old + sub);
                lemma_token_step(t, d, u, g, i as int, out_old, out@, pat, sub);
            }
            i = i + l;
        } else if starts_with_from(manifest_path, i, "<winDir>") {
            let ghost out_old = out@;
            let ghost pat = "<winDir>"@;
            let ghost sub = d + "/windows"@;
            proof {
                reveal_strlit("<winDir>");
                assert(spec_subst(t.skip(i as int), d, u, g) == glue(
                    sub,
                    spec_subst(t.skip(i as int + pat.len() as int), d, u, g),
                ));
            }
            out.append(drive.as_str());
            out.append("/windows");
            let l = "<winDir>".unicode_len();
            proof {
                assert(out@ =~= out_old + sub);
                lemma_token_step(t, d, u, g, i as int, out_old, out@, pat, sub);
            }
            i = i + l;
        } else if starts_with_from(manifest_path, i, "<home>") {
            let ghost out_old = out@;
            let ghost pat = "<home>"@;
            let ghost sub = u;
            proof {
                reveal_strlit("<home>");
                assert(spec_subst(t.skip(i as int), d, u, g) == glue(
                    sub,
                    spec_subst(t.skip(i as int + pat.len() as int), d, u, g),
                ));
            }
            out.append(user.as_str());
            let l = "<home>".unicode_len();
            proof {
                assert(out@ =~= out_old + sub);
                lemma_token_step(t, d, u, g, i as int, out_old, out@, pat, sub);
            }
            i = i + l;
        } else if starts_with_from(manifest_path, i, "<osUserName>") {
            let ghost out_old = out@;
            let ghost pat = "<osUserName>"@;
            let ghost sub = "steamuser"@;
            proof {
                reveal_strlit("<osUserName>");
                assert(spec_subst(t.skip(i as int), d, u, g) == glue(
                    sub,
                    spec_subst(t.skip(i as int + pat.len() as int), d, u, g),
                ));
            }
            out.append("steamuser");
            let l = "<osUserName>".unicode_len();
            proof {
                assert(out@ =~= out_old + sub);
                lemma_token_step(t, d, u, g, i as int, out_old, out@, pat, sub);
            }
            i = i + l;
        } else if starts_with_from(manifest_path, i, "<storeGameId>") {
            let ghost out_old = out@;
            let ghost pat = "<storeGameId>"@;
            let ghost sub = g;
            proof {
                reveal_strlit("<storeGameId>");
                assert(spec_subst(t.skip(i as int), d, u, g) == glue(
                    sub,
                    spec_subst(t.skip(i as int + pat.len() as int), d, u, g),
                ));
            }
            out.append(game_id);
            let l = "<storeGameId>".unicode_len();
            proof {
                assert(out@ =~= out_old + sub);
                lemma_token_step(t, d, u, g, i as int, out_old, out@, pat, sub);
            }
            i = i + l;
        } else if starts_with_from(manifest_path, i, "<xdgData>") {
            let ghost out_old = out@;
            let ghost pat = "<xdgData>"@;
            let ghost sub = u + "/.local/share"@;
            proof {
                reveal_strlit("<xdgData>");
                assert(spec_subst(t.skip(i as int), d, u, g) == glue(
                    sub,
                    spec_subst(t.skip(i as int + pat.len() as int), d, u, g),
                ));
            }
            out.append(user.as_str());
            out.append("/.local/share");
            let l = "<xdgData>".unicode_len();
            proof {
                assert(out@ =~= out_old + sub);
                lemma_token_step(t, d, u, g, i as int, out_old, out@, pat, sub);
            }
            i = i + l;
        } else if starts_with_from(manifest_path, i, "<xdgConfig>") {
            let ghost out_old = out@;
            let ghost pat = "<xdgConfig>"@;
            let ghost sub = u + "/.config"@;
            proof {
                reveal_strlit("<xdgConfig>");
                assert(spec_subst(t.skip(i as int), d, u, g) == glue(
                    sub,
                    spec_subst(t.skip(i as int + pat.len() as int), d, u, g),
                ));
            }
            out.append(user.as_str());
            out.append("/.config");
            let l = "<xdgConfig>".unicode_len();
            proof {
                assert(out@ =~= out_old + sub);
                lemma_token_step(t, d, u, g, i as int, out_old, out@, pat, sub);
            }
            i = i + l;
        } else {
            proof {
                assert(spec_subst(t.skip(i as int), d, u, g) is None);
            }
            return None;
        }
    }
    proof {
        assert(t.skip(len as int) =~= Seq::<char>::empty());
        assert(spec_subst(t, d, u, g) == Some(out@ + Seq::<char>::empty()));
        assert(out@ + Seq::<char>::empty() =~= out@);
    }
    if str_contains_char(out.as_str(), '<') {
        None
    } else {
        Some(out)
    }
}

} // verus!
