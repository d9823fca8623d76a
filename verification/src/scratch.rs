//! The files that a run keeps in its scratch directory.

use vstd::prelude::*;
use crate::chars::{push_str, string_of, texts_of};
use crate::decimal::{decimal, decimal_chars};
use crate::video::join_strings;
use crate::voice::Voice;
use crate::wrap::{append_chars, joined};

verus! {

/// The directories made inside the scratch directory.
pub open spec fn scratch_folders() -> Seq<Seq<char>> {
    seq!["audio"@]
}

/// The path of the file that holds clip `i`.
pub open spec fn audio_path(dir: Seq<char>, i: nat) -> Seq<char> {
    dir + "/audio/"@ + decimal(i) + ".mp3"@
}

/// The line of the list file that names clip `i`, by its path from the
/// scratch directory.
pub open spec fn list_line(i: nat) -> Seq<char> {
    "file 'audio/"@ + decimal(i) + ".mp3'"@
}

/// The paths of the first `count` clips.
pub open spec fn audio_paths(dir: Seq<char>, count: nat) -> Seq<Seq<char>> {
    Seq::new(count, |i: int| audio_path(dir, i as nat))
}

/// The lines that name the first `count` clips, in playing order.
pub open spec fn list_lines(count: nat) -> Seq<Seq<char>> {
    Seq::new(count, |i: int| list_line(i as nat))
}

/// Where the clips of a run are kept, and the list that names them.
#[derive(Clone, Debug)]
pub struct SavePlan {
    /// For each clip the file that holds its audio.
    pub audio_paths: Vec<String>,
    /// The path of the list file.
    pub list_path: String,
    /// What the list file holds.
    pub list_text: String,
}

/// The names of the directories to make inside the scratch directory.
pub fn folders() -> (out: Vec<String>)
    ensures
        texts_of(out@) == scratch_folders(),
{
    let mut out: Vec<String> = Vec::new();
    out.push("audio".to_owned());
    assert(texts_of(out@) =~= scratch_folders());
    out
}

/// Plans where the clips are saved: one numbered file for each, and a
/// list file that names them in playing order.
pub fn save_voices(voices: &Vec<Voice>, dir: &str) -> (out: SavePlan)
    ensures
        texts_of(out.audio_paths@) == audio_paths(dir@, voices@.len()),
        out.list_path@ == dir@ + "/voices.txt"@,
        out.list_text@ == joined(list_lines(voices@.len()), "\n"@),
{
    let mut paths: Vec<String> = Vec::new();
    let mut lines: Vec<String> = Vec::new();
    let mut i: usize = 0;
    assert(texts_of(paths@) =~= audio_paths(dir@, 0));
    assert(texts_of(lines@) =~= list_lines(0));
    while i < voices.len()
        invariant
            i <= voices.len(),
            texts_of(paths@) == audio_paths(dir@, i as nat),
            texts_of(lines@) == list_lines(i as nat),
        decreases voices.len() - i,
    {
        let ghost paths_before = texts_of(paths@);
        let ghost lines_before = texts_of(lines@);
        let number = decimal_chars(i as u128);
        let mut path: Vec<char> = Vec::new();
        push_str(&mut path, dir);
        push_str(&mut path, "/audio/");
        append_chars(&mut path, &number);
        push_str(&mut path, ".mp3");
        let mut line: Vec<char> = Vec::new();
        push_str(&mut line, "file 'audio/");
        append_chars(&mut line, &number);
        push_str(&mut line, ".mp3'");
        let path_text = string_of(&path);
        let line_text = string_of(&line);
        assert(path_text@ =~= audio_path(dir@, i as nat));
        assert(line_text@ =~= list_line(i as nat));
        paths.push(path_text);
        lines.push(line_text);
        i += 1;
        assert(texts_of(paths@) =~= paths_before.push(path_text@));
        assert(texts_of(lines@) =~= lines_before.push(line_text@));
        assert(texts_of(paths@) =~= audio_paths(dir@, i as nat));
        assert(texts_of(lines@) =~= list_lines(i as nat));
    }
    let mut list_path: Vec<char> = Vec::new();
    push_str(&mut list_path, dir);
    push_str(&mut list_path, "/voices.txt");
    SavePlan {
        audio_paths: paths,
        list_path: string_of(&list_path),
        list_text: join_strings(&lines, "\n"),
    }
}

} // verus!
