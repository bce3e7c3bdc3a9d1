//! The directory that holds all models.

use crate::internal::disk::{Host, PathKind, PathTable};
use crate::internal::env;
use vstd::prelude::*;
use vstd::string::*;

verus! {

/// The variable that names the models directory.
pub const RCAT_MODELS_DIR_ENV: &'static str = "RCAT_MODELS_DIR";

/// Whether `root` is a directory that holds a directory for at least one kind of model.
pub open spec fn is_models_root(disk: PathTable, root: Seq<char>) -> bool {
    &&& disk.at(root) == PathKind::Directory
    &&& {
        ||| disk.at(disk.joined(root, "ASR"@)) == PathKind::Directory
        ||| disk.at(disk.joined(root, "TTS"@)) == PathKind::Directory
        ||| disk.at(disk.joined(root, "TURN"@)) == PathKind::Directory
        ||| disk.at(disk.joined(root, "VAD"@)) == PathKind::Directory
    }
}

/// Whether `root` is a directory that holds a directory for at least one kind of model.
pub fn looks_like_rcat_models_root(disk: &PathTable, root: &str) -> (r: bool)
    ensures
        r == is_models_root(*disk, root@),
{
    disk.is_dir(root) && (disk.is_dir(disk.join(root, "ASR").as_str()) || disk.is_dir(
        disk.join(root, "TTS").as_str(),
    ) || disk.is_dir(disk.join(root, "TURN").as_str()) || disk.is_dir(
        disk.join(root, "VAD").as_str(),
    ))
}

/// The models directory beside or above the current directory, if there is one.
pub open spec fn detected_root(host: Host) -> Option<Seq<char>> {
    match host.cwd {
        Some(cwd) => {
            let inside = host.disk.joined(cwd@, "models"@);
            let beside = host.disk.joined(host.disk.joined(cwd@, ".."@), "models"@);
            if is_models_root(host.disk, inside) {
                Some(inside)
            } else if is_models_root(host.disk, beside) {
                Some(beside)
            } else {
                None
            }
        },
        None => None,
    }
}

/// The text in an option, as its characters.
pub open spec fn opt_text(text: Option<String>) -> Option<Seq<char>> {
    match text {
        Some(s) => Some(s@),
        None => None,
    }
}

/// The models directory beside or above the current directory, if there is one.
pub fn auto_detect_models_root(host: &Host) -> (r: Option<String>)
    ensures
        opt_text(r) == detected_root(*host),
{
    match &host.cwd {
        Some(cwd) => {
            let inside = host.disk.join(cwd.as_str(), "models");
            if looks_like_rcat_models_root(&host.disk, inside.as_str()) {
                return Some(inside);
            }
            let beside = host.disk.join(host.disk.join(cwd.as_str(), "..").as_str(), "models");
            if looks_like_rcat_models_root(&host.disk, beside.as_str()) {
                return Some(beside);
            }
            None
        },
        None => None,
    }
}

/// The models directory: the one that `RCAT_MODELS_DIR` names, else the detected one.
pub open spec fn models_root(host: Host) -> Option<Seq<char>> {
    match env::text_var(host.vars@, "RCAT_MODELS_DIR"@) {
        Some(root) => Some(root),
        None => detected_root(host),
    }
}

/// The models directory: the one that `RCAT_MODELS_DIR` names, else the detected one.
///
/// It holds `ASR/`, `TTS/`, `TURN/` and `VAD/`.
pub fn models_root_dir(host: &Host) -> (r: Option<String>)
    ensures
        opt_text(r) == models_root(*host),
{
    match env::string(&host.vars, RCAT_MODELS_DIR_ENV) {
        Some(root) => Some(root),
        None => auto_detect_models_root(host),
    }
}

/// The directory for one kind of model, if there is one.
pub open spec fn category(host: Host, name: Seq<char>) -> Option<Seq<char>> {
    match models_root(host) {
        Some(root) => if host.disk.at(host.disk.joined(root, name)) == PathKind::Directory {
            Some(host.disk.joined(root, name))
        } else {
            None
        },
        None => None,
    }
}

/// The directory for one kind of model, if there is one.
pub fn category_dir(host: &Host, name: &str) -> (r: Option<String>)
    ensures
        opt_text(r) == category(*host, name@),
{
    match models_root_dir(host) {
        Some(root) => {
            let candidate = host.disk.join(root.as_str(), name);
            if host.disk.is_dir(candidate.as_str()) {
                Some(candidate)
            } else {
                None
            }
        },
        None => None,
    }
}

/// The directory for one kind of model, else the models directory itself.
pub open spec fn category_or_root(host: Host, name: Seq<char>) -> Option<Seq<char>> {
    match category(host, name) {
        Some(dir) => Some(dir),
        None => models_root(host),
    }
}

/// The directory for one kind of model, else the models directory itself.
fn category_dir_or_root(host: &Host, name: &str) -> (r: Option<String>)
    ensures
        opt_text(r) == category_or_root(*host, name@),
{
    match category_dir(host, name) {
        Some(dir) => Some(dir),
        None => models_root_dir(host),
    }
}

/// The directory of speech recognition models.
pub fn asr_dir(host: &Host) -> (r: Option<String>)
    ensures
        opt_text(r) == category_or_root(*host, "ASR"@),
{
    category_dir_or_root(host, "ASR")
}

/// The directory of voice activity models.
pub fn vad_dir(host: &Host) -> (r: Option<String>)
    ensures
        opt_text(r) == category_or_root(*host, "VAD"@),
{
    category_dir_or_root(host, "VAD")
}

/// The directory of turn detection models.
pub fn turn_dir(host: &Host) -> (r: Option<String>)
    ensures
        opt_text(r) == category_or_root(*host, "TURN"@),
{
    category_dir_or_root(host, "TURN")
}

/// The directory of speech synthesis models.
pub fn tts_dir(host: &Host) -> (r: Option<String>)
    ensures
        opt_text(r) == category_or_root(*host, "TTS"@),
{
    category_dir_or_root(host, "TTS")
}

/// The directory of one engine's models below that of speech synthesis, if there is one.
pub open spec fn engine_dir(host: Host, name: Seq<char>) -> Option<Seq<char>> {
    match category_or_root(host, "TTS"@) {
        Some(root) => if host.disk.at(host.disk.joined(root, name)) == PathKind::Directory {
            Some(host.disk.joined(root, name))
        } else {
            None
        },
        None => None,
    }
}

/// The directory of one engine's models below that of speech synthesis, if there is one.
fn tts_engine_dir(host: &Host, name: &str) -> (r: Option<String>)
    ensures
        opt_text(r) == engine_dir(*host, name@),
{
    match tts_dir(host) {
        Some(root) => {
            let candidate = host.disk.join(root.as_str(), name);
            if host.disk.is_dir(candidate.as_str()) {
                Some(candidate)
            } else {
                None
            }
        },
        None => None,
    }
}

/// The directory of the GPT-SoVITS models, if there is one.
pub fn tts_gpt_sovits_dir(host: &Host) -> (r: Option<String>)
    ensures
        opt_text(r) == engine_dir(*host, "gpt-sovits"@),
{
    tts_engine_dir(host, "gpt-sovits")
}

/// The directory of the GPT-SoVITS ONNX models, if there is one.
pub fn tts_gpt_sovits_onnx_dir(host: &Host) -> (r: Option<String>)
    ensures
        opt_text(r) == engine_dir(*host, "gpt-sovits-onnx"@),
{
    tts_engine_dir(host, "gpt-sovits-onnx")
}

/// A models directory is a directory that holds one of four directories; one that holds none of
/// them is none.
pub proof fn law_what_a_models_directory_holds(disk: PathTable, root: Seq<char>, kind: Seq<char>)
    ensures
        is_models_root(disk, root) ==> disk.at(root) == PathKind::Directory,
        disk.at(root) == PathKind::Directory && (kind == "ASR"@ || kind == "TTS"@ || kind
            == "TURN"@ || kind == "VAD"@) && disk.at(disk.joined(root, kind))
            == PathKind::Directory ==> is_models_root(disk, root),
        disk.at(disk.joined(root, "ASR"@)) != PathKind::Directory && disk.at(
            disk.joined(root, "TTS"@),
        ) != PathKind::Directory && disk.at(disk.joined(root, "TURN"@)) != PathKind::Directory
            && disk.at(disk.joined(root, "VAD"@)) != PathKind::Directory ==> !is_models_root(
            disk,
            root,
        ),
{
}

/// The models directory is the one that is set, whatever stands there; else `models` below the
/// current directory, else `models` beside it, where that is one.
pub proof fn law_where_the_models_are(host: Host, set: Seq<char>, cwd: String)
    ensures
        env::text_var(host.vars@, "RCAT_MODELS_DIR"@) == Some(set) ==> models_root(host) == Some(
            set,
        ),
        env::text_var(host.vars@, "RCAT_MODELS_DIR"@) is None && host.cwd is None ==> models_root(
            host,
        ) is None,
        env::text_var(host.vars@, "RCAT_MODELS_DIR"@) is None && host.cwd == Some(cwd) ==> {
            let inside = host.disk.joined(cwd@, "models"@);
            let beside = host.disk.joined(host.disk.joined(cwd@, ".."@), "models"@);
            &&& is_models_root(host.disk, inside) ==> models_root(host) == Some(inside)
            &&& !is_models_root(host.disk, inside) && is_models_root(host.disk, beside)
                ==> models_root(host) == Some(beside)
            &&& !is_models_root(host.disk, inside) && !is_models_root(host.disk, beside)
                ==> models_root(host) is None
        },
{
}

/// Models of one kind stand in the directory of that name below the models directory, where there
/// is one, else in the models directory itself; an engine's stand in its own directory or nowhere.
pub proof fn law_models_of_one_kind(host: Host, name: Seq<char>)
    ensures
        models_root(host) is None ==> category(host, name) is None && category_or_root(host, name)
            is None && engine_dir(host, name) is None,
        models_root(host) matches Some(root) ==> {
            let dir = host.disk.joined(root, name);
            let speech = host.disk.joined(root, "TTS"@);
            let is_dir = |path: Seq<char>| host.disk.at(path) == PathKind::Directory;
            &&& is_dir(dir) ==> category(host, name) == Some(dir) && category_or_root(host, name)
                == Some(dir)
            &&& !is_dir(dir) ==> category(host, name) is None && category_or_root(host, name)
                == Some(root)
            &&& is_dir(speech) && is_dir(host.disk.joined(speech, name)) ==> engine_dir(host, name)
                == Some(host.disk.joined(speech, name))
            &&& is_dir(speech) && !is_dir(host.disk.joined(speech, name)) ==> engine_dir(host, name)
                is None
            &&& !is_dir(speech) && is_dir(dir) ==> engine_dir(host, name) == Some(dir)
            &&& !is_dir(speech) && !is_dir(dir) ==> engine_dir(host, name) is None
        },
{
}

/// The variable that names the models directory.
pub proof fn law_variable_of_the_models()
    ensures
        RCAT_MODELS_DIR_ENV@ == "RCAT_MODELS_DIR"@,
{
}

} // verus!
