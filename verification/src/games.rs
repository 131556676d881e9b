//! The installed games that two launchers keep on disk.

use crate::text::{
    chars_of, contains, contains_chars, field_of, nth_field, split, split_str, string_views,
    text_view,
};
use crate::seqs::{filter_map, lemma_filter_map_push};
use vstd::prelude::*;
use vstd::string::StringExecFns;

verus! {

/// One installed game.
#[derive(Debug, Clone, PartialEq, Eq)]
pub struct GameInfo {
    /// The game's name.
    pub name: String,
    /// The path of what starts the game.
    pub exe_path: String,
    /// The path of the cover picture, where there is one.
    pub cover_image: Option<String>,
    /// The launcher that the game belongs to: `Steam` or `Prism`.
    pub source: String,
}

/// The mathematical value of a `GameInfo`.
pub struct GameInfoView {
    pub name: Seq<char>,
    pub exe_path: Seq<char>,
    pub cover_image: Option<Seq<char>>,
    pub source: Seq<char>,
}

impl View for GameInfo {
    type V = GameInfoView;

    open spec fn view(&self) -> GameInfoView {
        GameInfoView {
            name: self.name@,
            exe_path: self.exe_path@,
            cover_image: text_view(self.cover_image),
            source: self.source@,
        }
    }
}

/// An entry of the directory in which a Steam library keeps its games.
#[derive(Debug, Clone, PartialEq, Eq)]
pub struct SteamEntry {
    /// The entry's file name.
    pub name: String,
    /// The entry's path.
    pub path: String,
    /// Whether the entry is a directory.
    pub is_dir: bool,
    /// The path of the cover picture that was found for it, if any.
    pub cover_image: Option<String>,
}

/// The mathematical value of a `SteamEntry`.
pub struct SteamEntryView {
    pub name: Seq<char>,
    pub path: Seq<char>,
    pub is_dir: bool,
    pub cover_image: Option<Seq<char>>,
}

impl View for SteamEntry {
    type V = SteamEntryView;

    open spec fn view(&self) -> SteamEntryView {
        SteamEntryView {
            name: self.name@,
            path: self.path@,
            is_dir: self.is_dir,
            cover_image: text_view(self.cover_image),
        }
    }
}

/// An entry of the directory in which Prism keeps its instances.
#[derive(Debug, Clone, PartialEq, Eq)]
pub struct PrismInstance {
    /// The entry's file name.
    pub name: String,
    /// The entry's path.
    pub path: String,
    /// Whether the instance has an icon file.
    pub has_icon: bool,
}

/// The mathematical value of a `PrismInstance`.
pub struct PrismInstanceView {
    pub name: Seq<char>,
    pub path: Seq<char>,
    pub has_icon: bool,
}

impl View for PrismInstance {
    type V = PrismInstanceView;

    open spec fn view(&self) -> PrismInstanceView {
        PrismInstanceView { name: self.name@, path: self.path@, has_icon: self.has_icon }
    }
}

/// The views of a sequence of games.
pub open spec fn game_views(games: Seq<GameInfo>) -> Seq<GameInfoView> {
    games.map_values(|game: GameInfo| game@)
}

/// The views of a sequence of Steam entries.
pub open spec fn steam_views(entries: Seq<SteamEntry>) -> Seq<SteamEntryView> {
    entries.map_values(|entry: SteamEntry| entry@)
}

/// The views of a sequence of Prism instances.
pub open spec fn prism_views(instances: Seq<PrismInstance>) -> Seq<PrismInstanceView> {
    instances.map_values(|instance: PrismInstance| instance@)
}

/// The library path that a line of the library index names: the fourth piece
/// between double quotes, in a line that holds the quoted key `path`.
pub open spec fn path_in_line(line: Seq<char>) -> Option<Seq<char>> {
    if contains(line, "\"path\""@) {
        nth_field(line, '"', 3)
    } else {
        None
    }
}

/// The library paths that the lines of the library index name, in order.
pub open spec fn paths_in_lines(lines: Seq<Seq<char>>) -> Seq<Seq<char>> {
    filter_map(lines, |line: Seq<char>| path_in_line(line))
}

/// The candidate Steam libraries: the root itself, then those that the
/// library index names; only the root where there is no index.
pub open spec fn library_paths(root: Seq<char>, index: Option<Seq<char>>) -> Seq<Seq<char>> {
    match index {
        Some(content) => seq![root] + paths_in_lines(split(content, '\n')),
        None => seq![root],
    }
}

/// The places where the cover of a game may lie in a grid directory, most
/// preferred first.
pub open spec fn cover_paths(grid_dir: Seq<char>, game: Seq<char>) -> Seq<Seq<char>> {
    seq![
        grid_dir + "/"@ + game + ".png"@,
        grid_dir + "/"@ + game + ".jpg"@,
        grid_dir + "/"@ + game + ".jpeg"@,
    ]
}

/// The game that a Steam entry stands for; none for an entry that is no
/// directory.
pub open spec fn steam_game(entry: SteamEntryView) -> Option<GameInfoView> {
    if entry.is_dir {
        Some(
            GameInfoView {
                name: entry.name,
                exe_path: entry.path,
                cover_image: entry.cover_image,
                source: "Steam"@,
            },
        )
    } else {
        None
    }
}

/// The games among the entries of a Steam library: one for each directory.
pub open spec fn steam_games(entries: Seq<SteamEntryView>) -> Seq<GameInfoView> {
    filter_map(entries, |entry: SteamEntryView| steam_game(entry))
}

/// The game that a Prism instance stands for.
pub open spec fn prism_game(instance: PrismInstanceView) -> GameInfoView {
    GameInfoView {
        name: instance.name,
        exe_path: instance.path + "/.minecraft/launcher_profiles.json"@,
        cover_image: if instance.has_icon {
            Some(instance.path + "/icon.png"@)
        } else {
            None
        },
        source: "Prism"@,
    }
}

/// The library path that one line of the library index names.
fn read_path_in_line(line: &str) -> (r: Option<String>)
    ensures
        text_view(r) == path_in_line(line@),
{
    let chars = chars_of(line);
    if contains_chars(chars.as_slice(), chars_of("\"path\"").as_slice()) {
        field_of(line, '"', 3)
    } else {
        None
    }
}

/// The candidate Steam libraries: the root, then the paths that the text of
/// the library index names. `index` is `None` where there is no index.
pub fn parse_libraryfolders(steam_root: &str, index: Option<&str>) -> (r: Vec<String>)
    ensures
        string_views(r@) == library_paths(
            steam_root@,
            match index {
                Some(content) => Some(content@),
                None => None,
            },
        ),
{
    let mut out: Vec<String> = Vec::new();
    out.push(steam_root.to_owned());
    assert(string_views(out@) == seq![steam_root@]);
    match index {
        None => out,
        Some(content) => {
            let lines = split_str(content, '\n');
            let ghost all = string_views(lines@);
            let mut i: usize = 0;
            assert(string_views(out@) == seq![steam_root@] + paths_in_lines(all.take(0)));
            while i < lines.len()
                invariant
                    i <= lines@.len(),
                    all == string_views(lines@),
                    string_views(out@) == seq![steam_root@] + paths_in_lines(all.take(i as int)),
                decreases lines@.len() - i,
            {
                proof {
                    assert(all.take(i + 1) == all.take(i as int).push(lines@[i as int]@));
                    lemma_filter_map_push(
                        all.take(i as int),
                        lines@[i as int]@,
                        |line: Seq<char>| path_in_line(line),
                    );
                }
                match read_path_in_line(lines[i].as_str()) {
                    Some(path) => {
                        proof {
                            assert(string_views(out@.push(path)) == string_views(out@).push(
                                path@,
                            ));
                            assert((seq![steam_root@] + paths_in_lines(all.take(i as int))).push(
                                path@,
                            ) == seq![steam_root@] + paths_in_lines(all.take(i as int)).push(
                                path@,
                            ));
                        }
                        out.push(path);
                    },
                    None => {},
                }
                i += 1;
            }
            proof {
                assert(all.take(i as int) == all);
            }
            out
        },
    }
}

/// One place where the cover of a game may lie.
fn cover_path(grid_dir: &str, game: &str, extension: &str) -> (r: String)
    ensures
        r@ == grid_dir@ + "/"@ + game@ + extension@,
{
    let mut path = grid_dir.to_owned();
    path.append("/");
    path.append(game);
    path.append(extension);
    path
}

/// The places where the cover of `game` may lie in the grid directory
/// `grid_dir`, most preferred first.
pub fn cover_candidates(grid_dir: &str, game: &str) -> (r: Vec<String>)
    ensures
        string_views(r@) == cover_paths(grid_dir@, game@),
{
    let mut out: Vec<String> = Vec::new();
    out.push(cover_path(grid_dir, game, ".png"));
    out.push(cover_path(grid_dir, game, ".jpg"));
    out.push(cover_path(grid_dir, game, ".jpeg"));
    assert(string_views(out@) == cover_paths(grid_dir@, game@));
    out
}

/// The games among the entries of a Steam library: one for each entry that is
/// a directory, in the order of the entries.
pub fn discover_steam_games(entries: &[SteamEntry]) -> (r: Vec<GameInfo>)
    ensures
        game_views(r@) == steam_games(steam_views(entries@)),
{
    let ghost all = steam_views(entries@);
    let mut out: Vec<GameInfo> = Vec::new();
    let mut i: usize = 0;
    assert(game_views(out@) == Seq::<GameInfoView>::empty());
    while i < entries.len()
        invariant
            i <= entries@.len(),
            all == steam_views(entries@),
            game_views(out@) == steam_games(all.take(i as int)),
        decreases entries@.len() - i,
    {
        let entry = &entries[i];
        proof {
            assert(all.take(i + 1) == all.take(i as int).push(entry@));
            lemma_filter_map_push(
                all.take(i as int),
                entry@,
                |entry: SteamEntryView| steam_game(entry),
            );
        }
        if entry.is_dir {
            let game = GameInfo {
                name: entry.name.clone(),
                exe_path: entry.path.clone(),
                cover_image: match &entry.cover_image {
                    Some(cover) => Some(cover.clone()),
                    None => None,
                },
                source: "Steam".to_owned(),
            };
            proof {
                assert(game_views(out@.push(game)) == game_views(out@).push(game@));
            }
            out.push(game);
        }
        i += 1;
    }
    proof {
        assert(all.take(i as int) == all);
    }
    out
}

/// The games of the Prism instances, one for each, in their order.
pub fn discover_prism_games(instances: &[PrismInstance]) -> (r: Vec<GameInfo>)
    ensures
        game_views(r@) == prism_views(instances@).map_values(
            |instance: PrismInstanceView| prism_game(instance),
        ),
{
    let ghost all = prism_views(instances@);
    let ghost wanted = all.map_values(|instance: PrismInstanceView| prism_game(instance));
    let mut out: Vec<GameInfo> = Vec::new();
    let mut i: usize = 0;
    assert(game_views(out@) == wanted.take(0));
    while i < instances.len()
        invariant
            i <= instances@.len(),
            all == prism_views(instances@),
            wanted == all.map_values(|instance: PrismInstanceView| prism_game(instance)),
            game_views(out@) == wanted.take(i as int),
        decreases instances@.len() - i,
    {
        let instance = &instances[i];
        let mut exe_path = instance.path.clone();
        exe_path.append("/.minecraft/launcher_profiles.json");
        let cover_image = if instance.has_icon {
            let mut icon = instance.path.clone();
            icon.append("/icon.png");
            Some(icon)
        } else {
            None
        };
        let game = GameInfo {
            name: instance.name.clone(),
            exe_path,
            cover_image,
            source: "Prism".to_owned(),
        };
        proof {
            assert(all[i as int] == instance@);
            assert(game@ == prism_game(instance@));
            assert(game_views(out@.push(game)) == game_views(out@).push(game@));
            assert(wanted.take(i + 1) == wanted.take(i as int).push(wanted[i as int]));
        }
        out.push(game);
        i += 1;
    }
    proof {
        assert(wanted.take(i as int) == wanted);
    }
    out
}

/// All the games: those of Steam, then those of Prism.
pub fn discover_all_games(steam: Vec<GameInfo>, prism: Vec<GameInfo>) -> (r: Vec<GameInfo>)
    ensures
        r@ == steam@ + prism@,
{
    let mut all = steam;
    let mut rest = prism;
    all.append(&mut rest);
    all
}

} // verus!
