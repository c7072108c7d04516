//! Transcription models on disk: what they are called, where they live, and how far a download
//! is. Where models live is up to the caller; a path is a string with `/` between its parts.

use crate::config::ModelChoice;
use vstd::prelude::*;

verus! {

/// Where models are published.
pub const HF_BASE: &'static str = "https://huggingface.co/ggerganov/whisper.cpp/resolve/main";

/// A smaller file than this is no complete model.
pub const MIN_MODEL_BYTES: u64 = 1_000_000;

/// The stem of a model's file name.
pub open spec fn stem_of(model: ModelChoice) -> Seq<char> {
    match model {
        ModelChoice::TinyEn => "ggml-tiny.en"@,
        ModelChoice::BaseEn => "ggml-base.en"@,
        ModelChoice::SmallEn => "ggml-small.en"@,
        ModelChoice::LargeV3Turbo => "ggml-large-v3-turbo"@,
    }
}

/// A model's file name, as published.
pub open spec fn filename_of(model: ModelChoice) -> Seq<char> {
    stem_of(model) + ".bin"@
}

fn ggml_stem(model: ModelChoice) -> (stem: &'static str)
    ensures
        stem@ == stem_of(model),
{
    match model {
        ModelChoice::TinyEn => "ggml-tiny.en",
        ModelChoice::BaseEn => "ggml-base.en",
        ModelChoice::SmallEn => "ggml-small.en",
        ModelChoice::LargeV3Turbo => "ggml-large-v3-turbo",
    }
}

/// A model's file name, as published.
pub fn ggml_filename(model: ModelChoice) -> (name: String)
    ensures
        name@ == filename_of(model),
{
    let mut name = ggml_stem(model).to_string();
    name.append(".bin");
    name
}

/// Approximate on-disk size in MB, for the download-progress estimate.
pub fn approx_mb(model: ModelChoice) -> (mb: u32)
    ensures
        mb == match model {
            ModelChoice::TinyEn => 78u32,
            ModelChoice::BaseEn => 148u32,
            ModelChoice::SmallEn => 488u32,
            ModelChoice::LargeV3Turbo => 1620u32,
        },
{
    match model {
        ModelChoice::TinyEn => 78,
        ModelChoice::BaseEn => 148,
        ModelChoice::SmallEn => 488,
        ModelChoice::LargeV3Turbo => 1620,
    }
}

/// `std::io::Error`: what the file system answered.
#[verifier::external_type_specification]
#[verifier::external_body]
pub struct ExIoError(std::io::Error);

/// `Display` of `std::io::Error`, by `to_string`. Its words are the system's, so nothing is
/// said of them.
#[verifier::external_body]
fn io_error_text(error: &std::io::Error) -> (text: String)
{
    error.to_string()
}

/// Why a model could not be had.
#[derive(Debug)]
pub enum ModelError {
    Io(std::io::Error),
    Download(String),
}

impl ModelError {
    /// The error in words. The words of an I/O error are the system's.
    pub fn message(&self) -> (text: String)
        ensures
            self matches ModelError::Io(_) ==> "model i/o error: "@.is_prefix_of(text@),
            self matches ModelError::Download(why) ==> text@ == "model download failed: "@ + why@,
    {
        let mut text = String::new();
        match self {
            ModelError::Io(error) => {
                text.append("model i/o error: ");
                let ghost lead = text@;
                text.append(io_error_text(error).as_str());
                assert(lead =~= "model i/o error: "@);
                assert(text@.take(lead.len() as int) =~= lead);
            },
            ModelError::Download(why) => {
                text.append("model download failed: ");
                text.append(why.as_str());
                assert(text@ =~= "model download failed: "@ + why@);
            },
        }
        text
    }
}

impl From<std::io::Error> for ModelError {
    fn from(e: std::io::Error) -> (error: Self) {
        ModelError::Io(e)
    }
}

impl vstd::std_specs::convert::FromSpecImpl<std::io::Error> for ModelError {
    open spec fn obeys_from_spec() -> bool {
        true
    }

    open spec fn from_spec(e: std::io::Error) -> Self {
        ModelError::Io(e)
    }
}

/// `name` inside the directory `dir`.
pub open spec fn path_in(dir: Seq<char>, name: Seq<char>) -> Seq<char> {
    if dir.len() == 0 || dir.last() == '/' {
        dir + name
    } else {
        dir.push('/') + name
    }
}

fn join_path(dir: &str, name: &str) -> (path: String)
    ensures
        path@ == path_in(dir@, name@),
{
    let chars = crate::text::chars_of(dir);
    let mut path = dir.to_string();
    if chars.len() > 0 && chars[chars.len() - 1] != '/' {
        path.push('/');
    }
    path.append(name);
    path
}

/// Where a model file would live inside `dir`.
pub fn model_path(dir: &str, model: ModelChoice) -> (path: String)
    ensures
        path@ == path_in(dir@, filename_of(model)),
{
    join_path(dir, ggml_filename(model).as_str())
}

/// Where a model file is downloaded to until it is complete.
pub fn part_path(dir: &str, model: ModelChoice) -> (path: String)
    ensures
        path@ == path_in(dir@, stem_of(model) + ".part"@),
{
    let mut name = ggml_stem(model).to_string();
    name.append(".part");
    join_path(dir, name.as_str())
}

/// Where a model is downloaded from.
pub fn model_url(model: ModelChoice) -> (url: String)
    ensures
        url@ == HF_BASE@ + "/"@ + filename_of(model),
{
    let mut url = String::new();
    url.append(HF_BASE);
    url.append("/");
    url.append(ggml_filename(model).as_str());
    assert(url@ =~= HF_BASE@ + "/"@ + filename_of(model));
    url
}

/// Is a model already downloaded (and plausibly complete), if its file has this size?
pub fn is_present(size: Option<u64>) -> (answer: bool)
    ensures
        answer == (size matches Some(size) && size > MIN_MODEL_BYTES),
        answer == (size matches Some(size) && size > 1_000_000),
{
    match size {
        Some(size) => size > MIN_MODEL_BYTES,
        None => false,
    }
}

/// What is said of a download that the server refused.
pub fn download_failed(model: ModelChoice, why: &str) -> (error: ModelError)
    ensures
        error matches ModelError::Download(text) && text@ == HF_BASE@ + "/"@ + filename_of(model)
            + ": "@ + why@,
{
    let mut text = model_url(model);
    text.append(": ");
    text.append(why);
    ModelError::Download(text)
}

/// How far a download is.
#[derive(Clone, Copy, Debug, PartialEq, Eq, Structural)]
pub struct Download {
    /// Bytes that have come.
    pub done: u64,
    /// The estimate of all there are.
    pub estimate: u64,
}

impl Download {
    pub fn new(model: ModelChoice) -> (download: Self)
        ensures
            download.done == 0,
            download.estimate == match model {
                ModelChoice::TinyEn => 78_000_000u64,
                ModelChoice::BaseEn => 148_000_000u64,
                ModelChoice::SmallEn => 488_000_000u64,
                ModelChoice::LargeV3Turbo => 1_620_000_000u64,
            },
    {
        Download { done: 0, estimate: approx_mb(model) as u64 * 1_000_000 }
    }

    /// Take note of `n` more bytes; returns the bytes so far and the total to show, which is
    /// never less.
    pub fn advance(&mut self, n: usize) -> (progress: (u64, u64))
        requires
            old(self).done + n <= u64::MAX,
        ensures
            final(self).done == old(self).done + n,
            final(self).estimate == old(self).estimate,
            progress.0 == final(self).done,
            progress.1 == if final(self).done > final(self).estimate {
                final(self).done
            } else {
                final(self).estimate
            },
    {
        self.done = self.done + n as u64;
        if self.done > self.estimate {
            (self.done, self.done)
        } else {
            (self.done, self.estimate)
        }
    }
}

/// The share of a total in percent, rounded down, if there is a total.
pub fn percent(done: u64, total: u64) -> (share: Option<u64>)
    requires
        done * 100 <= u64::MAX,
    ensures
        match share {
            Some(share) => total > 0 && share == done * 100 / total as int,
            None => total == 0,
        },
{
    if total > 0 {
        Some(done * 100 / total)
    } else {
        None
    }
}

/// A path has one separator between a directory and a name, and none is put behind one that is
/// there, or behind nothing.
pub proof fn law_paths_are_joined_once(dir: Seq<char>, name: Seq<char>)
    ensures
        dir.len() > 0 && dir.last() != '/' ==> path_in(dir, name) == dir + seq!['/'] + name,
        dir.len() > 0 && dir.last() == '/' ==> path_in(dir, name) == dir + name,
        dir.len() == 0 ==> path_in(dir, name) == name,
{
    if dir.len() == 0 {
        assert(dir + name =~= name);
    }
    assert(dir.push('/') + name =~= dir + seq!['/'] + name);
}

/// Each model has a file of its own.
pub proof fn law_models_have_their_files(model: ModelChoice)
    ensures
        stem_of(ModelChoice::TinyEn) == "ggml-tiny.en"@,
        stem_of(ModelChoice::BaseEn) == "ggml-base.en"@,
        stem_of(ModelChoice::SmallEn) == "ggml-small.en"@,
        stem_of(ModelChoice::LargeV3Turbo) == "ggml-large-v3-turbo"@,
        filename_of(model) == stem_of(model) + ".bin"@,
{
}

} // verus!
