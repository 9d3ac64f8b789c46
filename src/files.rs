//! Image lists and the post-switch command line, built from what the file
//! system reports and what the outside helpers compute.
use crate::config::OutputConfig;
use rand::seq::SliceRandom;
use vstd::prelude::*;

verus! {

/// What is found at a configured path.
#[derive(Debug)]
pub enum PathScan {
    /// A single file.
    File,
    /// A directory; its entries, walked recursively.
    Dir(Vec<String>),
    /// Neither.
    Missing,
}

/// Access to the file system for image discovery.
pub trait ImageSource {
    fn scan(&mut self, path: &String) -> PathScan;
}

pub open spec fn views_of(s: Seq<String>) -> Seq<Seq<char>> {
    s.map_values(|x: String| x@)
}

/// Top-level MIME types mime_guess associates with a path's extension.
pub uninterp spec fn mime_top_types(path: Seq<char>) -> Seq<Seq<char>>;

/// Words of a command line as shlex splits it.
pub uninterp spec fn shlex_words(command: Seq<char>) -> Seq<Seq<char>>;

/// Relies on `mime_guess::from_path`, `MimeGuess::iter` and `Mime::type_`:
/// the top-level type of each MIME type guessed from the path's extension.
#[verifier::external_body]
fn mime_types(path: &str) -> (r: Vec<String>)
    ensures
        views_of(r@) == mime_top_types(path@),
{
    mime_guess::from_path(path).iter().map(|m| m.type_().as_str().to_string()).collect()
}

/// Relies on `shlex::Shlex`: the words of the command line, in order.
#[verifier::external_body]
fn shell_words(command: &str) -> (r: Vec<String>)
    ensures
        views_of(r@) == shlex_words(command@),
{
    shlex::Shlex::new(command).collect()
}

/// Relies on rand's `SliceRandom::shuffle` with the thread-local generator:
/// the same elements in some order.
#[verifier::external_body]
fn shuffle_paths(v: &mut Vec<String>)
    ensures
        final(v)@.to_multiset() == old(v)@.to_multiset(),
{
    v.as_mut_slice().shuffle(&mut rand::rng());
}

pub open spec fn image_word() -> Seq<char> {
    seq!['i', 'm', 'a', 'g', 'e']
}

/// Some guessed type is an image type.
pub open spec fn is_image_path(path: Seq<char>) -> bool {
    mime_top_types(path).contains(image_word())
}

/// Whether some guessed top-level type is `image`, from the guessed types.
pub fn has_image_type(types: &Vec<String>) -> (r: bool)
    ensures
        r == views_of(types@).contains(image_word()),
{
    let image = String::from_str("image");
    proof {
        reveal_strlit("image");
    }
    let mut i: usize = 0;
    while i < types.len()
        invariant
            image@ == image_word(),
            i <= types@.len(),
            forall|j: int| 0 <= j < i ==> #[trigger] types@[j]@ != image_word(),
        decreases types@.len() - i,
    {
        if types[i] == image {
            assert(views_of(types@)[i as int] == image_word());
            return true;
        }
        i = i + 1;
    }
    proof {
        if views_of(types@).contains(image_word()) {
            let j = choose|j: int| 0 <= j < views_of(types@).len() && views_of(types@)[j] == image_word();
            assert(types@[j]@ == image_word());
        }
    }
    false
}

/// The path names a file whose guessed type is an image.
pub fn is_image_file(path: &String) -> (r: bool)
    ensures
        r == is_image_path(path@),
{
    has_image_type(&mime_types(path.as_str()))
}

/// The entries whose guessed type is an image, in order.
pub fn image_entries(entries: &Vec<String>) -> (r: Vec<String>)
    ensures
        r@ == entries@.filter(|e: String| is_image_path(e@)),
{
    let mut out: Vec<String> = Vec::new();
    let mut i: usize = 0;
    while i < entries.len()
        invariant
            i <= entries@.len(),
            out@ == entries@.subrange(0, i as int).filter(|e: String| is_image_path(e@)),
        decreases entries@.len() - i,
    {
        let ghost pre = entries@.subrange(0, i as int);
        proof {
            assert(entries@.subrange(0, i as int + 1) =~= pre.push(entries@[i as int]));
            pre.lemma_filter_push(entries@[i as int], |e: String| is_image_path(e@));
        }
        if is_image_file(&entries[i]) {
            out.push(entries[i].clone());
        }
        i = i + 1;
    }
    assert(entries@.subrange(0, entries@.len() as int) =~= entries@);
    out
}

/// The images of an output: none without settings or when the path is
/// missing, the path itself when it is a file, and the image entries of a
/// directory in random order.
pub fn get_img_list<F: ImageSource>(output_config: Option<&OutputConfig>, files: &mut F) -> (r: Vec<String>)
    ensures
        output_config is None ==> r@.len() == 0,
        output_config matches Some(c) ==> forall|i: int|
            0 <= i < r@.len() ==> #[trigger] r@[i]@ == c.path@ || is_image_path(r@[i]@),
{
    match output_config {
        None => Vec::new(),
        Some(c) => {
            let scan = files.scan(&c.path);
            img_list_from_scan(&c.path, scan)
        },
    }
}

/// The image list for `path` once the file system answered `scan`.
pub fn img_list_from_scan(path: &String, scan: PathScan) -> (r: Vec<String>)
    ensures
        match scan {
            PathScan::File => r@.len() == 1 && r@[0]@ == path@,
            PathScan::Missing => r@.len() == 0,
            PathScan::Dir(entries) => r@.to_multiset() == entries@.filter(
                |e: String| is_image_path(e@),
            ).to_multiset() && forall|i: int| 0 <= i < r@.len() ==> is_image_path(#[trigger] r@[i]@),
        },
{
    match scan {
        PathScan::File => {
            let mut v: Vec<String> = Vec::new();
            v.push(path.clone());
            v
        },
        PathScan::Missing => Vec::new(),
        PathScan::Dir(entries) => {
            let mut v = image_entries(&entries);
            let ghost unshuffled = v@;
            shuffle_paths(&mut v);
            proof {
                let f = entries@.filter(|e: String| is_image_path(e@));
                v@.to_multiset_ensures();
                f.to_multiset_ensures();
                assert forall|i: int| 0 <= i < v@.len() implies is_image_path(#[trigger] v@[i]@) by {
                    assert(v@.contains(v@[i]));
                    assert(v@.to_multiset().count(v@[i]) > 0);
                    assert(unshuffled.to_multiset() == f.to_multiset());
                    assert(f.to_multiset().count(v@[i]) > 0);
                    assert(f.contains(v@[i]));
                    let j = choose|j: int| 0 <= j < f.len() && f[j] == v@[i];
                    entries@.lemma_filter_pred(|e: String| is_image_path(e@), j);
                }
            }
            v
        },
    }
}

pub open spec fn image_placeholder() -> Seq<char> {
    seq!['{', 'i', 'm', 'a', 'g', 'e', '}']
}

/// Each word, with a word that is exactly `{image}` replaced by `image`.
pub open spec fn substituted(words: Seq<Seq<char>>, image: Seq<char>) -> Seq<Seq<char>> {
    words.map_values(|w: Seq<char>| if w == image_placeholder() { image } else { w })
}

/// Replace each word that is exactly `{image}` by the image path.
pub fn substitute_image(words: &Vec<String>, image: &String) -> (r: Vec<String>)
    ensures
        views_of(r@) == substituted(views_of(words@), image@),
{
    let placeholder = String::from_str("{image}");
    proof {
        reveal_strlit("{image}");
    }
    let mut out: Vec<String> = Vec::new();
    let mut i: usize = 0;
    while i < words.len()
        invariant
            placeholder@ == image_placeholder(),
            i <= words@.len(),
            out@.len() == i,
            forall|j: int| 0 <= j < i ==> #[trigger] out@[j]@ == (if words@[j]@ == image_placeholder() {
                image@
            } else {
                words@[j]@
            }),
        decreases words@.len() - i,
    {
        if words[i] == placeholder {
            out.push(image.clone());
        } else {
            out.push(words[i].clone());
        }
        i = i + 1;
    }
    assert(views_of(out@) =~= substituted(views_of(words@), image@));
    out
}

/// The argument vector to run after showing `image`: the command split into
/// shell words, with `{image}` replaced by the image path.
pub fn command_line(command: &String, image: &String) -> (r: Vec<String>)
    ensures
        views_of(r@) == substituted(shlex_words(command@), image@),
{
    let words = shell_words(command.as_str());
    substitute_image(&words, image)
}

} // verus!
