//! Server settings: the line format of the settings file and the world seed
//! derived from the seed string.
//!
//! Lines are parsed as bytes, one `name = value` pair per line, `#` starting
//! a comment. Unknown names are reported but harmless; a malformed value is
//! an error the caller treats as fatal, as a bad configuration should be.

use vstd::prelude::*;
use std::hash::Hasher;
use vstd::string::StringSliceAdditionalSpecFns;
use crate::interact::GameMode;

verus! {

/// The server's knobs.
#[derive(Clone, Debug)]
pub struct Settings {
    /// The world (and database) picked by name, if any.
    pub world_name: Option<Vec<u8>>,
    /// The seed string; hashed into the world seed.
    pub seed: Vec<u8>,
    /// Whether players hurt each other.
    pub pvp: bool,
    /// How many chunks out a player receives.
    pub render_distance: u32,
    /// The mode new players start in.
    pub game_mode: GameMode,
}

impl Settings {
    /// The defaults a missing file implies.
    pub fn new_default() -> (s: Settings)
        ensures
            s.world_name is None,
            s.seed@.len() == 0,
            !s.pvp,
            s.render_distance == 16,
            s.game_mode is Survival,
    {
        Settings {
            world_name: None,
            seed: Vec::new(),
            pvp: false,
            render_distance: 16,
            game_mode: GameMode::Survival,
        }
    }
}

/// What one settings line means.
#[derive(Clone, Debug)]
pub enum SettingLine {
    /// Blank, or a `#` comment.
    Skip,
    WorldName(Vec<u8>),
    Seed(Vec<u8>),
    Pvp(bool),
    RenderDistance(u32),
    Mode(GameMode),
    /// A known shape with a name nobody knows; logged and ignored.
    Unknown,
    /// No `=`, or an unreadable value: the file is broken.
    Malformed,
}

/// The index range of `bytes` with outer spaces and tabs removed.
fn trimmed(bytes: &Vec<u8>, from: usize, to: usize) -> (r: (usize, usize))
    requires
        from <= to <= bytes@.len(),
    ensures
        from <= r.0 <= r.1 <= to,
{
    let mut s = from;
    let mut e = to;
    while s < e && (bytes[s] == 32 || bytes[s] == 9)
        invariant
            from <= s <= e <= to <= bytes@.len(),
        decreases e - s,
    {
        s = s + 1;
    }
    while e > s && (bytes[e - 1] == 32 || bytes[e - 1] == 9)
        invariant
            from <= s <= e <= to <= bytes@.len(),
        decreases e,
    {
        e = e - 1;
    }
    (s, e)
}

/// Whether a byte range spells a keyword.
fn range_is(bytes: &Vec<u8>, from: usize, to: usize, word: &str) -> (r: bool)
    requires
        from <= to <= bytes@.len(),
    ensures
        r == (bytes@.subrange(from as int, to as int) =~= word.spec_bytes()),
{
    let w = word.as_bytes();
    if to - from != w.len() {
        proof {
            assert(bytes@.subrange(from as int, to as int).len() != word.spec_bytes().len());
        }
        return false;
    }
    let mut i: usize = 0;
    while i < w.len()
        invariant
            from <= to <= bytes@.len(),
            to - from == w@.len(),
            w@ == word.spec_bytes(),
            i <= w@.len(),
            forall|j: int| 0 <= j < i ==> bytes@[from + j] == w@[j],
        decreases w@.len() - i,
    {
        if bytes[from + i] != w[i] {
            proof {
                assert(bytes@.subrange(from as int, to as int)[i as int] != w@[i as int]);
            }
            return false;
        }
        i = i + 1;
    }
    proof {
        assert(bytes@.subrange(from as int, to as int) =~= w@);
    }
    true
}

/// Parse an unsigned number written in decimal digits.
fn parse_u32(bytes: &Vec<u8>, from: usize, to: usize) -> (r: Option<u32>)
    requires
        from <= to <= bytes@.len(),
    ensures
        match r {
            Some(_) => to > from && forall|i: int|
                from <= i < to ==> 48 <= #[trigger] bytes@[i] <= 57,
            None => true,
        },
{
    if from == to {
        return None;
    }
    let mut value: u64 = 0;
    let mut i = from;
    while i < to
        invariant
            from <= i <= to <= bytes@.len(),
            value <= 0xFFFF_FFFF,
            forall|j: int| from <= j < i ==> 48 <= #[trigger] bytes@[j] <= 57,
        decreases to - i,
    {
        let b = bytes[i];
        if b < 48 || b > 57 {
            return None;
        }
        value = value * 10 + (b - 48) as u64;
        if value > u32::MAX as u64 {
            return None;
        }
        i = i + 1;
    }
    Some(value as u32)
}

/// Read one line of the settings file.
pub fn parse_line(line: &Vec<u8>) -> (r: SettingLine)
    ensures
        true,
{
    let (s, e) = trimmed(line, 0, line.len());
    if s == e {
        return SettingLine::Skip;
    }
    if line[s] == 35 {
        // A '#' comment.
        return SettingLine::Skip;
    }
    // Split at the first '='.
    let mut eq = s;
    while eq < e && line[eq] != 61
        invariant
            s <= eq <= e <= line@.len(),
        decreases e - eq,
    {
        eq = eq + 1;
    }
    if eq == e {
        return SettingLine::Malformed;
    }
    let (ns, ne) = trimmed(line, s, eq);
    let (vs, ve) = trimmed(line, eq + 1, e);

    if range_is(line, ns, ne, "world-name") {
        if vs == ve {
            return SettingLine::Malformed;
        }
        let mut name: Vec<u8> = Vec::new();
        let mut i = vs;
        while i < ve
            invariant
                vs <= i <= ve <= line@.len(),
            decreases ve - i,
        {
            name.push(line[i]);
            i = i + 1;
        }
        SettingLine::WorldName(name)
    } else if range_is(line, ns, ne, "seed") {
        let mut seed: Vec<u8> = Vec::new();
        let mut i = vs;
        while i < ve
            invariant
                vs <= i <= ve <= line@.len(),
            decreases ve - i,
        {
            seed.push(line[i]);
            i = i + 1;
        }
        SettingLine::Seed(seed)
    } else if range_is(line, ns, ne, "pvp") {
        if range_is(line, vs, ve, "true") {
            SettingLine::Pvp(true)
        } else if range_is(line, vs, ve, "false") {
            SettingLine::Pvp(false)
        } else {
            SettingLine::Malformed
        }
    } else if range_is(line, ns, ne, "render-distance") {
        match parse_u32(line, vs, ve) {
            Some(v) => SettingLine::RenderDistance(v),
            None => SettingLine::Malformed,
        }
    } else if range_is(line, ns, ne, "game-mode") {
        if range_is(line, vs, ve, "survival") {
            SettingLine::Mode(GameMode::Survival)
        } else if range_is(line, vs, ve, "creative") {
            SettingLine::Mode(GameMode::Creative)
        } else if range_is(line, vs, ve, "spectator") {
            SettingLine::Mode(GameMode::Spectator)
        } else {
            SettingLine::Malformed
        }
    } else {
        SettingLine::Unknown
    }
}

/// Read a whole settings file. A malformed line fails the parse with its
/// index; unknown names are ignored.
pub fn parse_settings(lines: &Vec<Vec<u8>>) -> (r: Result<Settings, usize>)
    ensures
        match r {
            Ok(_) => true,
            Err(i) => i < lines@.len(),
        },
{
    let mut settings = Settings::new_default();
    let mut i: usize = 0;
    while i < lines.len()
        invariant
            i <= lines@.len(),
        decreases lines@.len() - i,
    {
        match parse_line(&lines[i]) {
            SettingLine::Skip => {},
            SettingLine::Unknown => {},
            SettingLine::WorldName(name) => {
                settings.world_name = Some(name);
            },
            SettingLine::Seed(seed) => {
                settings.seed = seed;
            },
            SettingLine::Pvp(pvp) => {
                settings.pvp = pvp;
            },
            SettingLine::RenderDistance(d) => {
                settings.render_distance = d;
            },
            SettingLine::Mode(mode) => {
                settings.game_mode = mode;
            },
            SettingLine::Malformed => {
                return Err(i);
            },
        }
        i = i + 1;
    }
    Ok(settings)
}

/// What the standard hasher digests a byte string to; one seed string always
/// yields one world seed.
pub uninterp spec fn seed_hash_of(bytes: Seq<u8>) -> u64;

/// Relies on std's `DefaultHasher`: built with `new`, it hashes with fixed
/// keys, so equal byte strings give equal output on every run.
#[verifier::external_body]
pub fn hash_seed(bytes: &Vec<u8>) -> (r: u64)
    ensures
        r == seed_hash_of(bytes@),
{
    let mut hasher = std::hash::DefaultHasher::new();
    hasher.write(bytes);
    hasher.finish()
}

} // verus!
