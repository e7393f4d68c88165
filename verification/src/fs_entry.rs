//! Directory entries: the order a listing is shown in, icons and sizes.
use vstd::prelude::*;
use std::time::SystemTime;
use crate::text::{lowercase, to_lowercase, chars_of, chars_le, chars_eq_str, lex_le, lemma_lex_total,
    lemma_lex_transitive};

verus! {

broadcast use vstd::seq_lib::group_seq_properties;

#[verifier::external_type_specification]
#[verifier::external_body]
pub struct ExSystemTime(SystemTime);

/// One entry of a directory listing.
pub struct FsEntry {
    pub name: String,
    pub path: String,
    pub is_dir: bool,
    pub size: u64,
    /// When the entry last changed, as a timestamp (see
    /// `modified_timestamp`); `None` where the file system does not say.
    pub modified: Option<(i64, u32)>,
}

/// The key a listing is ordered by: the lowercase name.
pub open spec fn name_key(e: FsEntry) -> Seq<char> {
    lowercase(e.name@)
}

/// Listing order: folders before files, then by lowercase name.
pub open spec fn entry_le(a: FsEntry, b: FsEntry) -> bool {
    ||| a.is_dir && !b.is_dir
    ||| a.is_dir == b.is_dir && lex_le(name_key(a), name_key(b))
}

/// A sequence of entries is in listing order.
pub open spec fn in_listing_order(s: Seq<FsEntry>) -> bool {
    forall|i: int, j: int| 0 <= i < j < s.len() ==> entry_le(#[trigger] s[i], #[trigger] s[j])
}

/// Entries the listing order cannot tell apart from `e`: the same kind and
/// the same lowercase name.
pub open spec fn tied_with(e: FsEntry) -> spec_fn(FsEntry) -> bool {
    |x: FsEntry| x.is_dir == e.is_dir && name_key(x) == name_key(e)
}

proof fn lemma_lex_reflexive(a: Seq<char>)
    ensures
        lex_le(a, a),
    decreases a.len(),
{
    if a.len() > 0 {
        lemma_lex_reflexive(a.drop_first());
    }
}

proof fn lemma_entry_total(a: FsEntry, b: FsEntry)
    ensures
        entry_le(a, b) || entry_le(b, a),
{
    lemma_lex_total(name_key(a), name_key(b));
}

proof fn lemma_entry_transitive(a: FsEntry, b: FsEntry, c: FsEntry)
    requires
        entry_le(a, b),
        entry_le(b, c),
    ensures
        entry_le(a, c),
{
    if a.is_dir == b.is_dir && b.is_dir == c.is_dir {
        lemma_lex_transitive(name_key(a), name_key(b), name_key(c));
    }
}

proof fn lemma_tied_le(e: FsEntry, x: FsEntry)
    requires
        tied_with(e)(x),
    ensures
        entry_le(x, e),
{
    lemma_lex_reflexive(name_key(e));
}

/// `a` comes no later than `b`, given their lowercase names.
fn entry_le_exec(a: &FsEntry, a_key: &Vec<char>, b: &FsEntry, b_key: &Vec<char>) -> (r: bool)
    requires
        a_key@ == name_key(*a),
        b_key@ == name_key(*b),
    ensures
        r == entry_le(*a, *b),
{
    if a.is_dir && !b.is_dir {
        true
    } else if a.is_dir == b.is_dir {
        chars_le(a_key, b_key)
    } else {
        false
    }
}

/// The lowercase name of an entry, as characters.
fn key_of(e: &FsEntry) -> (r: Vec<char>)
    ensures
        r@ == name_key(*e),
{
    let lower = to_lowercase(e.name.as_str());
    chars_of(lower.as_str())
}

proof fn lemma_insert_keeps_classes(
    out: Seq<FsEntry>,
    done: Seq<FsEntry>,
    p: int,
    e: FsEntry,
)
    requires
        0 <= p <= out.len(),
        forall|q: int| p <= q < out.len() ==> !entry_le(#[trigger] out[q], e),
        forall|c: FsEntry| #[trigger] out.filter(tied_with(c)) == done.filter(tied_with(c)),
    ensures
        forall|c: FsEntry| #[trigger] out.insert(p, e).filter(tied_with(c)) == done.push(e).filter(
            tied_with(c),
        ),
{
    assert forall|c: FsEntry| #[trigger] out.insert(p, e).filter(tied_with(c)) == done.push(
        e,
    ).filter(tied_with(c)) by {
        let pred = tied_with(c);
        let a = out.take(p);
        let b = out.skip(p);
        assert(out =~= a + b);
        assert(out.insert(p, e) =~= a.push(e) + b);
        Seq::filter_distributes_over_add(a, b, pred);
        Seq::filter_distributes_over_add(a.push(e), b, pred);
        a.lemma_filter_push(e, pred);
        done.lemma_filter_push(e, pred);
        if pred(e) {
            assert forall|i: int| 0 <= i < b.len() implies !pred(#[trigger] b[i]) by {
                if pred(b[i]) {
                    assert(tied_with(e)(b[i]));
                    lemma_tied_le(e, b[i]);
                    assert(out[p + i] == b[i]);
                }
            }
            b.lemma_all_neg_filter_empty(pred);
            assert(b.filter(pred) =~= Seq::<FsEntry>::empty());
            assert(a.filter(pred) + b.filter(pred) =~= a.filter(pred));
            assert(a.filter(pred).push(e) + b.filter(pred) =~= a.filter(pred).push(e));
        }
    }
}

/// Orders a listing: folders first, then by lowercase name; entries the
/// order cannot tell apart keep their relative order (a stable sort).
#[verifier::spinoff_prover]
pub fn sort_entries(entries: Vec<FsEntry>) -> (r: Vec<FsEntry>)
    ensures
        in_listing_order(r@),
        forall|c: FsEntry| #[trigger] r@.filter(tied_with(c)) == entries@.filter(tied_with(c)),
        r@.to_multiset() == entries@.to_multiset(),
{
    let ghost all = entries@;
    let mut input = entries;
    let mut out: Vec<FsEntry> = Vec::new();
    let mut keys: Vec<Vec<char>> = Vec::new();
    proof {
        assert(all.take(0) =~= Seq::<FsEntry>::empty());
        assert(all.skip(0) =~= all);
    }
    while input.len() > 0
        invariant
            input@ == all.skip(all.len() - input.len()),
            input.len() <= all.len(),
            keys.len() == out.len(),
            forall|i: int| 0 <= i < out.len() ==> (#[trigger] keys@[i])@ == name_key(out@[i]),
            in_listing_order(out@),
            forall|c: FsEntry| #[trigger] out@.filter(tied_with(c)) == all.take(
                all.len() - input.len(),
            ).filter(tied_with(c)),
            out@.to_multiset() == all.take(all.len() - input.len()).to_multiset(),
        decreases input.len(),
    {
        let ghost n = all.len() - input.len();
        let e = input.remove(0);
        proof {
            assert(e == all[n]);
            assert(input@ =~= all.skip(n + 1));
            assert(all.take(n + 1) =~= all.take(n).push(e));
        }
        let k = key_of(&e);
        let mut p: usize = 0;
        while p < out.len() && entry_le_exec(&out[p], &keys[p], &e, &k)
            invariant
                p <= out.len(),
                keys.len() == out.len(),
                k@ == name_key(e),
                forall|i: int| 0 <= i < out.len() ==> (#[trigger] keys@[i])@ == name_key(out@[i]),
                forall|i: int| 0 <= i < p ==> entry_le(#[trigger] out@[i], e),
            decreases out.len() - p,
        {
            p = p + 1;
        }
        let ghost old_out = out@;
        let ghost old_keys = keys@;
        proof {
            assert forall|q: int| p <= q < old_out.len() implies !entry_le(
                #[trigger] old_out[q],
                e,
            ) by {
                if entry_le(old_out[q], e) {
                    if q > p {
                        lemma_entry_transitive(old_out[p as int], old_out[q], e);
                    }
                }
            }
            lemma_insert_keeps_classes(old_out, all.take(n), p as int, e);
            vstd::seq_lib::to_multiset_build(all.take(n), e);
            vstd::seq_lib::to_multiset_insert(old_out, p as int, e);
        }
        out.insert(p, e);
        keys.insert(p, k);
        proof {
            assert forall|i: int, j: int| 0 <= i < j < out@.len() implies entry_le(
                #[trigger] out@[i],
                #[trigger] out@[j],
            ) by {
                if j < p {
                    assert(out@[i] == old_out[i] && out@[j] == old_out[j]);
                } else if j == p {
                    assert(out@[i] == old_out[i]);
                } else if i == p {
                    lemma_entry_total(old_out[j - 1], e);
                } else if i < p {
                    lemma_entry_total(old_out[j - 1], e);
                    lemma_entry_transitive(old_out[i], e, old_out[j - 1]);
                } else {
                    assert(out@[i] == old_out[i - 1] && out@[j] == old_out[j - 1]);
                }
            }
            assert forall|i: int| 0 <= i < out.len() implies (#[trigger] keys@[i])@ == name_key(
                out@[i],
            ) by {
                if i < p {
                } else if i > p {
                    assert(keys@[i] == old_keys[i - 1]);
                }
            }
        }
    }
    proof {
        assert(all.take(all.len() as int) =~= all);
    }
    out
}

} // verus!

verus! {

/// The extension the icon is chosen by: `Path::extension` of the name in
/// lowercase, or empty where there is none.
pub open spec fn icon_extension(name: Seq<char>) -> Seq<char> {
    match crate::path::extension(name) {
        Some(e) => lowercase(e),
        None => Seq::empty(),
    }
}

/// The icon shown for a file with the given lowercase extension.
pub open spec fn icon_for_ext(x: Seq<char>) -> Seq<char> {
    if x == "png"@ || x == "jpg"@ || x == "jpeg"@ || x == "gif"@ || x == "bmp"@ || x == "webp"@
        || x == "svg"@ || x == "ico"@ {
        "🖼"@
    } else if x == "bat"@ || x == "cmd"@ || x == "ps1"@ || x == "sh"@ {
        "⚙"@
    } else if x == "exe"@ || x == "msi"@ {
        "💾"@
    } else if x == "zip"@ || x == "rar"@ || x == "7z"@ || x == "tar"@ || x == "gz"@ {
        "🗜"@
    } else if x == "txt"@ || x == "md"@ || x == "log"@ {
        "📄"@
    } else if x == "pdf"@ {
        "📕"@
    } else if x == "mp3"@ || x == "wav"@ || x == "flac"@ || x == "ogg"@ {
        "🎵"@
    } else if x == "mp4"@ || x == "mkv"@ || x == "avi"@ || x == "mov"@ {
        "🎬"@
    } else if x == "doc"@ || x == "docx"@ {
        "📘"@
    } else if x == "xls"@ || x == "xlsx"@ {
        "📗"@
    } else if x == "ppt"@ || x == "pptx"@ {
        "📙"@
    } else if x == "rs"@ || x == "py"@ || x == "js"@ || x == "ts"@ || x == "c"@ || x == "cpp"@
        || x == "h"@ || x == "java"@ || x == "go"@ || x == "json"@ || x == "toml"@ || x
        == "yaml"@ || x == "yml"@ || x == "html"@ || x == "css"@ {
        "📝"@
    } else {
        "📄"@
    }
}

/// The icon for an entry: a folder icon for directories, else by extension.
pub open spec fn icon_spec(e: FsEntry) -> Seq<char> {
    if e.is_dir {
        "📁"@
    } else {
        icon_for_ext(icon_extension(e.name@))
    }
}

/// The icon for a file whose lowercase extension is `ext`.
pub fn icon_for_extension(ext: &str) -> (r: &'static str)
    ensures
        r@ == icon_for_ext(ext@),
{
    let x = chars_of(ext);
    if chars_eq_str(&x, "png") || chars_eq_str(&x, "jpg") || chars_eq_str(&x, "jpeg")
        || chars_eq_str(&x, "gif") || chars_eq_str(&x, "bmp") || chars_eq_str(&x, "webp")
        || chars_eq_str(&x, "svg") || chars_eq_str(&x, "ico") {
        "🖼"
    } else if chars_eq_str(&x, "bat") || chars_eq_str(&x, "cmd") || chars_eq_str(&x, "ps1")
        || chars_eq_str(&x, "sh") {
        "⚙"
    } else if chars_eq_str(&x, "exe") || chars_eq_str(&x, "msi") {
        "💾"
    } else if chars_eq_str(&x, "zip") || chars_eq_str(&x, "rar") || chars_eq_str(&x, "7z")
        || chars_eq_str(&x, "tar") || chars_eq_str(&x, "gz") {
        "🗜"
    } else if chars_eq_str(&x, "txt") || chars_eq_str(&x, "md") || chars_eq_str(&x, "log") {
        "📄"
    } else if chars_eq_str(&x, "pdf") {
        "📕"
    } else if chars_eq_str(&x, "mp3") || chars_eq_str(&x, "wav") || chars_eq_str(&x, "flac")
        || chars_eq_str(&x, "ogg") {
        "🎵"
    } else if chars_eq_str(&x, "mp4") || chars_eq_str(&x, "mkv") || chars_eq_str(&x, "avi")
        || chars_eq_str(&x, "mov") {
        "🎬"
    } else if chars_eq_str(&x, "doc") || chars_eq_str(&x, "docx") {
        "📘"
    } else if chars_eq_str(&x, "xls") || chars_eq_str(&x, "xlsx") {
        "📗"
    } else if chars_eq_str(&x, "ppt") || chars_eq_str(&x, "pptx") {
        "📙"
    } else if chars_eq_str(&x, "rs") || chars_eq_str(&x, "py") || chars_eq_str(&x, "js")
        || chars_eq_str(&x, "ts") || chars_eq_str(&x, "c") || chars_eq_str(&x, "cpp")
        || chars_eq_str(&x, "h") || chars_eq_str(&x, "java") || chars_eq_str(&x, "go")
        || chars_eq_str(&x, "json") || chars_eq_str(&x, "toml") || chars_eq_str(&x, "yaml")
        || chars_eq_str(&x, "yml") || chars_eq_str(&x, "html") || chars_eq_str(&x, "css") {
        "📝"
    } else {
        "📄"
    }
}

/// The characters of the extensions the icons are chosen by.
proof fn lemma_extension_letters()
    ensures
        "png"@.len() == 3 && "png"@[0] == 'p' && "png"@[1] == 'n' && "png"@[2] == 'g',
        "jpg"@.len() == 3 && "jpg"@[0] == 'j' && "jpg"@[1] == 'p' && "jpg"@[2] == 'g',
        "jpeg"@.len() == 4 && "jpeg"@[0] == 'j' && "jpeg"@[1] == 'p' && "jpeg"@[2] == 'e' && "jpeg"@[3] == 'g',
        "gif"@.len() == 3 && "gif"@[0] == 'g' && "gif"@[1] == 'i' && "gif"@[2] == 'f',
        "bmp"@.len() == 3 && "bmp"@[0] == 'b' && "bmp"@[1] == 'm' && "bmp"@[2] == 'p',
        "webp"@.len() == 4 && "webp"@[0] == 'w' && "webp"@[1] == 'e' && "webp"@[2] == 'b' && "webp"@[3] == 'p',
        "svg"@.len() == 3 && "svg"@[0] == 's' && "svg"@[1] == 'v' && "svg"@[2] == 'g',
        "ico"@.len() == 3 && "ico"@[0] == 'i' && "ico"@[1] == 'c' && "ico"@[2] == 'o',
        "bat"@.len() == 3 && "bat"@[0] == 'b' && "bat"@[1] == 'a' && "bat"@[2] == 't',
        "cmd"@.len() == 3 && "cmd"@[0] == 'c' && "cmd"@[1] == 'm' && "cmd"@[2] == 'd',
        "ps1"@.len() == 3 && "ps1"@[0] == 'p' && "ps1"@[1] == 's' && "ps1"@[2] == '1',
        "sh"@.len() == 2 && "sh"@[0] == 's' && "sh"@[1] == 'h',
        "exe"@.len() == 3 && "exe"@[0] == 'e' && "exe"@[1] == 'x' && "exe"@[2] == 'e',
        "msi"@.len() == 3 && "msi"@[0] == 'm' && "msi"@[1] == 's' && "msi"@[2] == 'i',
        "zip"@.len() == 3 && "zip"@[0] == 'z' && "zip"@[1] == 'i' && "zip"@[2] == 'p',
        "rar"@.len() == 3 && "rar"@[0] == 'r' && "rar"@[1] == 'a' && "rar"@[2] == 'r',
        "7z"@.len() == 2 && "7z"@[0] == '7' && "7z"@[1] == 'z',
        "tar"@.len() == 3 && "tar"@[0] == 't' && "tar"@[1] == 'a' && "tar"@[2] == 'r',
        "gz"@.len() == 2 && "gz"@[0] == 'g' && "gz"@[1] == 'z',
        "txt"@.len() == 3 && "txt"@[0] == 't' && "txt"@[1] == 'x' && "txt"@[2] == 't',
        "md"@.len() == 2 && "md"@[0] == 'm' && "md"@[1] == 'd',
        "log"@.len() == 3 && "log"@[0] == 'l' && "log"@[1] == 'o' && "log"@[2] == 'g',
        "pdf"@.len() == 3 && "pdf"@[0] == 'p' && "pdf"@[1] == 'd' && "pdf"@[2] == 'f',
        "mp3"@.len() == 3 && "mp3"@[0] == 'm' && "mp3"@[1] == 'p' && "mp3"@[2] == '3',
        "wav"@.len() == 3 && "wav"@[0] == 'w' && "wav"@[1] == 'a' && "wav"@[2] == 'v',
        "flac"@.len() == 4 && "flac"@[0] == 'f' && "flac"@[1] == 'l' && "flac"@[2] == 'a' && "flac"@[3] == 'c',
        "ogg"@.len() == 3 && "ogg"@[0] == 'o' && "ogg"@[1] == 'g' && "ogg"@[2] == 'g',
        "mp4"@.len() == 3 && "mp4"@[0] == 'm' && "mp4"@[1] == 'p' && "mp4"@[2] == '4',
        "mkv"@.len() == 3 && "mkv"@[0] == 'm' && "mkv"@[1] == 'k' && "mkv"@[2] == 'v',
        "avi"@.len() == 3 && "avi"@[0] == 'a' && "avi"@[1] == 'v' && "avi"@[2] == 'i',
        "mov"@.len() == 3 && "mov"@[0] == 'm' && "mov"@[1] == 'o' && "mov"@[2] == 'v',
        "doc"@.len() == 3 && "doc"@[0] == 'd' && "doc"@[1] == 'o' && "doc"@[2] == 'c',
        "docx"@.len() == 4 && "docx"@[0] == 'd' && "docx"@[1] == 'o' && "docx"@[2] == 'c' && "docx"@[3] == 'x',
        "xls"@.len() == 3 && "xls"@[0] == 'x' && "xls"@[1] == 'l' && "xls"@[2] == 's',
        "xlsx"@.len() == 4 && "xlsx"@[0] == 'x' && "xlsx"@[1] == 'l' && "xlsx"@[2] == 's' && "xlsx"@[3] == 'x',
        "ppt"@.len() == 3 && "ppt"@[0] == 'p' && "ppt"@[1] == 'p' && "ppt"@[2] == 't',
        "pptx"@.len() == 4 && "pptx"@[0] == 'p' && "pptx"@[1] == 'p' && "pptx"@[2] == 't' && "pptx"@[3] == 'x',
        "rs"@.len() == 2 && "rs"@[0] == 'r' && "rs"@[1] == 's',
        "py"@.len() == 2 && "py"@[0] == 'p' && "py"@[1] == 'y',
        "js"@.len() == 2 && "js"@[0] == 'j' && "js"@[1] == 's',
        "ts"@.len() == 2 && "ts"@[0] == 't' && "ts"@[1] == 's',
        "c"@.len() == 1 && "c"@[0] == 'c',
        "cpp"@.len() == 3 && "cpp"@[0] == 'c' && "cpp"@[1] == 'p' && "cpp"@[2] == 'p',
        "h"@.len() == 1 && "h"@[0] == 'h',
        "java"@.len() == 4 && "java"@[0] == 'j' && "java"@[1] == 'a' && "java"@[2] == 'v' && "java"@[3] == 'a',
        "go"@.len() == 2 && "go"@[0] == 'g' && "go"@[1] == 'o',
        "json"@.len() == 4 && "json"@[0] == 'j' && "json"@[1] == 's' && "json"@[2] == 'o' && "json"@[3] == 'n',
        "toml"@.len() == 4 && "toml"@[0] == 't' && "toml"@[1] == 'o' && "toml"@[2] == 'm' && "toml"@[3] == 'l',
        "yaml"@.len() == 4 && "yaml"@[0] == 'y' && "yaml"@[1] == 'a' && "yaml"@[2] == 'm' && "yaml"@[3] == 'l',
        "yml"@.len() == 3 && "yml"@[0] == 'y' && "yml"@[1] == 'm' && "yml"@[2] == 'l',
        "html"@.len() == 4 && "html"@[0] == 'h' && "html"@[1] == 't' && "html"@[2] == 'm' && "html"@[3] == 'l',
        "css"@.len() == 3 && "css"@[0] == 'c' && "css"@[1] == 's' && "css"@[2] == 's',
        "xyz"@.len() == 3 && "xyz"@[0] == 'x' && "xyz"@[1] == 'y' && "xyz"@[2] == 'z',
        "JPG"@.len() == 3 && "JPG"@[0] == 'J' && "JPG"@[1] == 'P' && "JPG"@[2] == 'G',
{
    reveal_strlit("png");
    reveal_strlit("jpg");
    reveal_strlit("jpeg");
    reveal_strlit("gif");
    reveal_strlit("bmp");
    reveal_strlit("webp");
    reveal_strlit("svg");
    reveal_strlit("ico");
    reveal_strlit("bat");
    reveal_strlit("cmd");
    reveal_strlit("ps1");
    reveal_strlit("sh");
    reveal_strlit("exe");
    reveal_strlit("msi");
    reveal_strlit("zip");
    reveal_strlit("rar");
    reveal_strlit("7z");
    reveal_strlit("tar");
    reveal_strlit("gz");
    reveal_strlit("txt");
    reveal_strlit("md");
    reveal_strlit("log");
    reveal_strlit("pdf");
    reveal_strlit("mp3");
    reveal_strlit("wav");
    reveal_strlit("flac");
    reveal_strlit("ogg");
    reveal_strlit("mp4");
    reveal_strlit("mkv");
    reveal_strlit("avi");
    reveal_strlit("mov");
    reveal_strlit("doc");
    reveal_strlit("docx");
    reveal_strlit("xls");
    reveal_strlit("xlsx");
    reveal_strlit("ppt");
    reveal_strlit("pptx");
    reveal_strlit("rs");
    reveal_strlit("py");
    reveal_strlit("js");
    reveal_strlit("ts");
    reveal_strlit("c");
    reveal_strlit("cpp");
    reveal_strlit("h");
    reveal_strlit("java");
    reveal_strlit("go");
    reveal_strlit("json");
    reveal_strlit("toml");
    reveal_strlit("yaml");
    reveal_strlit("yml");
    reveal_strlit("html");
    reveal_strlit("css");
    reveal_strlit("xyz");
    reveal_strlit("JPG");
}

/// Image files get the picture icon.
pub proof fn lemma_image_icons()
    ensures
        icon_for_ext("png"@) == "🖼"@,
        icon_for_ext("jpg"@) == "🖼"@,
        icon_for_ext("jpeg"@) == "🖼"@,
        icon_for_ext("gif"@) == "🖼"@,
        icon_for_ext("bmp"@) == "🖼"@,
        icon_for_ext("webp"@) == "🖼"@,
        icon_for_ext("svg"@) == "🖼"@,
        icon_for_ext("ico"@) == "🖼"@,
{
    lemma_extension_letters();
    reveal_strlit("🖼");
}

/// Scripts get the gear icon.
pub proof fn lemma_script_icons()
    ensures
        icon_for_ext("bat"@) == "⚙"@,
        icon_for_ext("cmd"@) == "⚙"@,
        icon_for_ext("ps1"@) == "⚙"@,
        icon_for_ext("sh"@) == "⚙"@,
{
    lemma_extension_letters();
    reveal_strlit("⚙");
}

/// Programs and installers get the disk icon.
pub proof fn lemma_program_icons()
    ensures
        icon_for_ext("exe"@) == "💾"@,
        icon_for_ext("msi"@) == "💾"@,
{
    lemma_extension_letters();
    reveal_strlit("💾");
}

/// Archives get the clamp icon.
pub proof fn lemma_archive_icons()
    ensures
        icon_for_ext("zip"@) == "🗜"@,
        icon_for_ext("rar"@) == "🗜"@,
        icon_for_ext("7z"@) == "🗜"@,
        icon_for_ext("tar"@) == "🗜"@,
        icon_for_ext("gz"@) == "🗜"@,
{
    lemma_extension_letters();
    reveal_strlit("🗜");
}

/// Plain text files get the page icon.
pub proof fn lemma_text_icons()
    ensures
        icon_for_ext("txt"@) == "📄"@,
        icon_for_ext("md"@) == "📄"@,
        icon_for_ext("log"@) == "📄"@,
{
    lemma_extension_letters();
    reveal_strlit("📄");
}

/// PDF documents get the red book icon.
pub proof fn lemma_pdf_icons()
    ensures
        icon_for_ext("pdf"@) == "📕"@,
{
    lemma_extension_letters();
    reveal_strlit("📕");
}

/// Audio files get the note icon.
pub proof fn lemma_audio_icons()
    ensures
        icon_for_ext("mp3"@) == "🎵"@,
        icon_for_ext("wav"@) == "🎵"@,
        icon_for_ext("flac"@) == "🎵"@,
        icon_for_ext("ogg"@) == "🎵"@,
{
    lemma_extension_letters();
    reveal_strlit("🎵");
}

/// Video files get the clapper icon.
pub proof fn lemma_video_icons()
    ensures
        icon_for_ext("mp4"@) == "🎬"@,
        icon_for_ext("mkv"@) == "🎬"@,
        icon_for_ext("avi"@) == "🎬"@,
        icon_for_ext("mov"@) == "🎬"@,
{
    lemma_extension_letters();
    reveal_strlit("🎬");
}

/// Word-processor documents get the blue book icon.
pub proof fn lemma_document_icons()
    ensures
        icon_for_ext("doc"@) == "📘"@,
        icon_for_ext("docx"@) == "📘"@,
{
    lemma_extension_letters();
    reveal_strlit("📘");
}

/// Spreadsheets get the green book icon.
pub proof fn lemma_spreadsheet_icons()
    ensures
        icon_for_ext("xls"@) == "📗"@,
        icon_for_ext("xlsx"@) == "📗"@,
{
    lemma_extension_letters();
    reveal_strlit("📗");
}

/// Presentations get the orange book icon.
pub proof fn lemma_presentation_icons()
    ensures
        icon_for_ext("ppt"@) == "📙"@,
        icon_for_ext("pptx"@) == "📙"@,
{
    lemma_extension_letters();
    reveal_strlit("📙");
}

/// Source code and data files get the memo icon.
pub proof fn lemma_source_icons()
    ensures
        icon_for_ext("rs"@) == "📝"@,
        icon_for_ext("py"@) == "📝"@,
        icon_for_ext("js"@) == "📝"@,
        icon_for_ext("ts"@) == "📝"@,
        icon_for_ext("c"@) == "📝"@,
        icon_for_ext("cpp"@) == "📝"@,
        icon_for_ext("h"@) == "📝"@,
        icon_for_ext("java"@) == "📝"@,
        icon_for_ext("go"@) == "📝"@,
        icon_for_ext("json"@) == "📝"@,
        icon_for_ext("toml"@) == "📝"@,
        icon_for_ext("yaml"@) == "📝"@,
        icon_for_ext("yml"@) == "📝"@,
        icon_for_ext("html"@) == "📝"@,
        icon_for_ext("css"@) == "📝"@,
{
    lemma_extension_letters();
    reveal_strlit("📝");
}

/// Folders get the folder icon; a file with no extension, or with one
/// that is not listed (extensions are matched in lowercase), gets the page
/// icon.
pub proof fn lemma_other_icons(e: FsEntry)
    ensures
        e.is_dir ==> icon_spec(e) == "📁"@,
        !e.is_dir && crate::path::extension(e.name@) is None ==> icon_spec(e) == "📄"@,
        icon_for_ext("xyz"@) == "📄"@,
        icon_for_ext("JPG"@) == "📄"@,
{
    lemma_extension_letters();
    reveal_strlit("📁");
    reveal_strlit("📄");
    lemma_no_extension_icon();
}

/// No extension gets the page icon.
proof fn lemma_no_extension_icon()
    ensures
        icon_for_ext(Seq::empty()) == "📄"@,
{
    lemma_extension_letters();
    reveal_strlit("📄");
}

/// The icon shown beside an entry.
pub fn icon_for(entry: &FsEntry) -> (r: &'static str)
    ensures
        r@ == icon_spec(*entry),
{
    if entry.is_dir {
        return "📁";
    }
    match crate::path::extension_of(entry.name.as_str()) {
        Some(e) => {
            let lower = to_lowercase(e.as_str());
            icon_for_extension(lower.as_str())
        },
        None => {
            let none = "";
            proof {
                reveal_strlit("");
                assert(none@ =~= Seq::<char>::empty());
            }
            icon_for_extension(none)
        },
    }
}

} // verus!

verus! {

/// `2` to the power `k`.
pub open spec fn two_pow(k: nat) -> nat
    decreases k,
{
    if k == 0 {
        1
    } else {
        2 * two_pow((k - 1) as nat)
    }
}

/// The number of binary digits of `n` (0 for 0).
pub open spec fn bit_len(n: nat) -> nat
    decreases n,
{
    if n == 0 {
        0
    } else {
        1 + bit_len(n / 2)
    }
}

/// `a / d` rounded to the nearest whole number, ties to the even one.
pub open spec fn round_half_even(a: nat, d: nat) -> nat
    recommends
        d > 0,
{
    let q = a / d;
    let r = a % d;
    if 2 * r > d || (2 * r == d && q % 2 == 1) {
        q + 1
    } else {
        q
    }
}

/// The value that `n as f64` holds: `n` rounded to 53 significant bits,
/// to nearest, ties to even.
pub open spec fn as_double(n: nat) -> nat {
    if bit_len(n) <= 53 {
        n
    } else {
        let m = two_pow((bit_len(n) - 53) as nat);
        round_half_even(n, m) * m
    }
}

/// How many times 1024 goes into a size before it drops below 1024,
/// at most four times (B, KB, MB, GB, TB).
pub open spec fn size_unit(v: nat) -> nat {
    if v >= 1099511627776 {
        4
    } else if v >= 1073741824 {
        3
    } else if v >= 1048576 {
        2
    } else if v >= 1024 {
        1
    } else {
        0
    }
}

/// 1024 to the power of the unit.
pub open spec fn unit_divisor(u: nat) -> nat {
    if u == 4 {
        1099511627776
    } else if u == 3 {
        1073741824
    } else if u == 2 {
        1048576
    } else if u == 1 {
        1024
    } else {
        1
    }
}

/// The name of a unit.
pub open spec fn unit_name(u: nat) -> Seq<char> {
    if u == 4 {
        seq!['T', 'B']
    } else if u == 3 {
        seq!['G', 'B']
    } else if u == 2 {
        seq!['M', 'B']
    } else if u == 1 {
        seq!['K', 'B']
    } else {
        seq!['B']
    }
}

/// The size column's text: empty for folders; whole bytes below 1 KB;
/// otherwise the size in the largest unit up to TB, to one decimal place,
/// as `{:.1}` prints the `f64` the size converts to.
pub open spec fn size_text(size: u64, is_dir: bool) -> Seq<char> {
    if is_dir {
        Seq::empty()
    } else {
        let v = as_double(size as nat);
        let u = size_unit(v);
        if u == 0 {
            crate::number::decimal(size as nat) + seq![' '] + unit_name(0)
        } else {
            let t = round_half_even(10 * v, unit_divisor(u));
            crate::number::decimal(t / 10) + seq!['.', crate::number::digit(t % 10), ' ']
                + unit_name(u)
        }
    }
}

proof fn lemma_bit_len_bound(n: nat, k: nat)
    requires
        n < two_pow(k),
    ensures
        bit_len(n) <= k,
    decreases k,
{
    if n > 0 && k > 0 {
        lemma_bit_len_bound(n / 2, (k - 1) as nat);
    }
}

proof fn lemma_two_pow_mono(a: nat, b: nat)
    requires
        a <= b,
    ensures
        two_pow(a) <= two_pow(b),
    decreases b,
{
    if a < b {
        lemma_two_pow_mono(a, (b - 1) as nat);
    }
}

/// The number of binary digits of `n`.
fn bit_length(n: u64) -> (b: u64)
    ensures
        b == bit_len(n as nat),
        b <= 64,
{
    let mut x = n;
    let mut b: u64 = 0;
    proof {
        assert(two_pow(64) == 18446744073709551616nat) by {
            reveal_with_fuel(two_pow, 65);
        }
        lemma_bit_len_bound(n as nat, 64);
    }
    while x > 0
        invariant
            bit_len(n as nat) == b + bit_len(x as nat),
            bit_len(n as nat) <= 64,
        decreases x,
    {
        x = x / 2;
        b = b + 1;
    }
    b
}

/// `2` to the power `k`, for small `k`.
fn power_of_two(k: u64) -> (m: u128)
    requires
        k <= 11,
    ensures
        m == two_pow(k as nat),
        1 <= m <= 2048,
{
    let mut m: u128 = 1;
    let mut i: u64 = 0;
    while i < k
        invariant
            k <= 11,
            i <= k,
            m == two_pow(i as nat),
            1 <= m <= two_pow(i as nat),
            two_pow(i as nat) <= 2048,
        decreases k - i,
    {
        proof {
            assert(two_pow(11) == 2048) by {
                reveal_with_fuel(two_pow, 12);
            }
            lemma_two_pow_mono((i + 1) as nat, 11);
        }
        m = m * 2;
        i = i + 1;
    }
    m
}

/// `a / d` rounded to nearest, ties to even.
fn round_half_even_exec(a: u128, d: u128) -> (r: u128)
    requires
        d > 0,
        d < 0x1_0000_0000_0000_0000_0000_0000,
        a < 0x1_0000_0000_0000_0000_0000_0000,
    ensures
        r == round_half_even(a as nat, d as nat),
        r <= a / d + 1,
{
    let q = a / d;
    let rem = a % d;
    if 2 * rem > d || (2 * rem == d && q % 2 == 1) {
        q + 1
    } else {
        q
    }
}

/// The value `n as f64` holds, as an integer.
#[verifier::spinoff_prover]
fn double_value(n: u64) -> (r: u128)
    ensures
        r == as_double(n as nat),
        r <= 18446744073709551616u128 + 2048,
{
    let b = bit_length(n);
    if b <= 53 {
        return n as u128;
    }
    let m = power_of_two(b - 53);
    let nn = n as u128;
    let q2 = round_half_even_exec(nn, m);
    proof {
        let q = nn / m;
        let r = nn % m;
        vstd::arithmetic::div_mod::lemma_fundamental_div_mod(nn as int, m as int);
        assert(q * m <= nn) by (nonlinear_arith)
            requires
                nn == m * q + r,
                r >= 0,
        ;
        assert(q2 * m <= nn + m) by (nonlinear_arith)
            requires
                q * m <= nn,
                q2 <= q + 1,
                m > 0,
        ;
    }
    q2 * m
}

/// The size column's text for an entry of `size` bytes.
#[verifier::spinoff_prover]
pub fn format_size(size: u64, is_dir: bool) -> (r: String)
    ensures
        r@ == size_text(size, is_dir),
{
    if is_dir {
        return String::new();
    }
    let v = double_value(size);
    let (u, d): (u64, u128) = if v >= 1099511627776 {
        (4, 1099511627776)
    } else if v >= 1073741824 {
        (3, 1073741824)
    } else if v >= 1048576 {
        (2, 1048576)
    } else if v >= 1024 {
        (1, 1024)
    } else {
        (0, 1)
    };
    let mut out: Vec<char>;
    if u == 0 {
        out = crate::number::decimal_chars(size as u128);
        out.push(' ');
        out.push('B');
        proof {
            assert(out@ =~= size_text(size, is_dir));
        }
    } else {
        let t = round_half_even_exec(10 * v, d);
        out = crate::number::decimal_chars(t / 10);
        out.push('.');
        out.push(crate::number::digit_char(t % 10));
        out.push(' ');
        if u == 4 {
            out.push('T');
        } else if u == 3 {
            out.push('G');
        } else if u == 2 {
            out.push('M');
        } else {
            out.push('K');
        }
        out.push('B');
        proof {
            assert(out@ =~= size_text(size, is_dir));
        }
    }
    crate::text::string_from_chars(&out)
}

} // verus!

verus! {

/// Calls `SystemTime::duration_since(UNIX_EPOCH)`: whether the time lies
/// before the epoch, and its distance from it in whole seconds and the
/// nanoseconds beyond. Claimed: the nanoseconds are below one billion
/// (`Duration::subsec_nanos`).
#[verifier::external_body]
fn since_epoch(t: SystemTime) -> (r: (bool, u64, u32))
    ensures
        r.2 < 1_000_000_000,
{
    match t.duration_since(std::time::UNIX_EPOCH) {
        Ok(d) => (false, d.as_secs(), d.subsec_nanos()),
        Err(e) => (true, e.duration().as_secs(), e.duration().subsec_nanos()),
    }
}

/// The seconds and nanoseconds from the epoch that `chrono` makes of a
/// `SystemTime` given by its distance from the epoch: before the epoch the
/// seconds are negated, borrowing one second for a fractional part. `None`
/// where negating overflows.
pub open spec fn epoch_timestamp(before: bool, secs: u64, nanos: u32) -> Option<(i64, u32)> {
    let s = secs as i64;
    if !before {
        Some((s, nanos))
    } else if s == i64::MIN {
        None
    } else if nanos == 0 {
        Some(((-s) as i64, 0u32))
    } else {
        Some(((-s - 1) as i64, (1_000_000_000 - nanos) as u32))
    }
}

/// The timestamp `chrono` makes of a time `secs` seconds and `nanos`
/// nanoseconds after (or, with `before`, before) the epoch.
pub fn epoch_seconds(before: bool, secs: u64, nanos: u32) -> (r: Option<(i64, u32)>)
    requires
        nanos < 1_000_000_000,
    ensures
        r == epoch_timestamp(before, secs, nanos),
{
    let s = secs as i64;
    if !before {
        Some((s, nanos))
    } else if s == i64::MIN {
        None
    } else if nanos == 0 {
        Some((-s, 0))
    } else {
        Some((-s - 1, 1_000_000_000 - nanos))
    }
}

/// The timestamp of a `SystemTime`, as `chrono` makes it: seconds from the
/// epoch and the nanoseconds beyond. `None` only where the time lies so far
/// before the epoch that the seconds do not fit in an `i64`.
pub fn modified_timestamp(t: SystemTime) -> (r: Option<(i64, u32)>)
    ensures
        r matches Some(p) ==> p.1 < 1_000_000_000,
{
    let (before, secs, nanos) = since_epoch(t);
    epoch_seconds(before, secs, nanos)
}

/// A timestamp well inside `chrono`'s range of dates (years -262143 to
/// 262143): at most 8 * 10^12 seconds (about 253,000 years) from the
/// epoch, with the nanoseconds below one second.
pub open spec fn within_date_range(secs: i64, nanos: u32) -> bool {
    -8_000_000_000_000 <= secs <= 8_000_000_000_000 && nanos < 1_000_000_000
}

/// Whether `y` is a leap year of the proleptic Gregorian calendar.
pub open spec fn leap_year(y: int) -> bool {
    y % 4 == 0 && (y % 100 != 0 || y % 400 == 0)
}

/// The number of days in month `m` (1 to 12) of year `y`.
pub open spec fn days_in_month(y: int, m: int) -> int {
    if m == 2 {
        if leap_year(y) {
            29
        } else {
            28
        }
    } else if m == 4 || m == 6 || m == 9 || m == 11 {
        30
    } else {
        31
    }
}

/// The number of days in the months of year `y` before month `m`.
pub open spec fn days_before_month(y: int, m: int) -> int
    decreases m,
{
    if m <= 1 {
        0
    } else {
        days_before_month(y, m - 1) + days_in_month(y, m - 1)
    }
}

/// The number of leap years from year 0 up to (not including) year `y`,
/// counted negatively for `y` below 0.
pub open spec fn leap_years_before(y: int) -> int {
    (y + 3) / 4 - (y + 99) / 100 + (y + 399) / 400
}

/// The day number of a date, 1970-01-01 being day 0.
pub open spec fn epoch_day(y: int, m: int, d: int) -> int {
    365 * (y - 1970) + leap_years_before(y) - leap_years_before(1970) + days_before_month(y, m) + d
        - 1
}

/// Whether `f` (year, month, day, hour, minute) is a valid date and time
/// whose minute holds the moment `t` seconds after 1970-01-01 00:00.
pub open spec fn names_minute(f: (i32, u32, u32, u32, u32), t: int) -> bool {
    let start = epoch_day(f.0 as int, f.1 as int, f.2 as int) * 86400 + f.3 * 3600 + f.4 * 60;
    &&& 1 <= f.1 <= 12
    &&& 1 <= f.2 <= days_in_month(f.0 as int, f.1 as int)
    &&& f.3 <= 23
    &&& f.4 <= 59
    &&& start <= t < start + 60
}

/// Calls `Utc.timestamp_opt` and `DateTime::with_timezone(&Local)`, and
/// reads the local year, month, day, hour and minute. `None` where the
/// timestamp is outside `chrono`'s range. Claimed:
/// - the fields name the minute, on the proleptic Gregorian calendar, that
///   holds `secs + off` for some offset `off` of less than a day either way
///   (the local offset is a `FixedOffset`, which `east_opt` only makes for
///   less than 86400 seconds, and local time is UTC plus that offset);
/// - the month, day, hour and minute lie in their ranges;
/// - a timestamp within `within_date_range` gives fields
///   (`DateTime::from_timestamp` turns it into a day number inside
///   `NaiveDate::MIN..=MAX` and a time of day).
/// The offset itself is not claimed: it depends on the machine's time zone.
#[verifier::external_body]
fn local_fields(secs: i64, nanos: u32) -> (r: Option<(i32, u32, u32, u32, u32)>)
    ensures
        r matches Some(f) ==> 1 <= f.1 <= 12 && 1 <= f.2 <= 31 && f.3 <= 23 && f.4 <= 59,
        r matches Some(f) ==> exists|off: int|
            -86400 < off < 86400 && #[trigger] names_minute(f, secs + off),
        within_date_range(secs, nanos) ==> r is Some,
{
    match chrono::TimeZone::timestamp_opt(&chrono::Utc, secs, nanos) {
        chrono::LocalResult::Single(u) => {
            let l = u.with_timezone(&chrono::Local);
            Some((
                chrono::Datelike::year(&l),
                chrono::Datelike::month(&l),
                chrono::Datelike::day(&l),
                chrono::Timelike::hour(&l),
                chrono::Timelike::minute(&l),
            ))
        },
        chrono::LocalResult::Ambiguous(_, _) => None,
        chrono::LocalResult::None => None,
    }
}

/// The digits of `n`, with leading zeros up to `width` digits.
pub open spec fn zero_padded(n: nat, width: nat) -> Seq<char> {
    let d = crate::number::decimal(n);
    if d.len() >= width {
        d
    } else {
        Seq::new((width - d.len()) as nat, |i: int| '0') + d
    }
}

/// A year as `%Y` prints it: four digits, zero-padded, for years 0 to 9999;
/// otherwise with a sign, zero-padded to at least four digits.
pub open spec fn year_text(y: int) -> Seq<char> {
    if 0 <= y <= 9999 {
        zero_padded(y as nat, 4)
    } else if y < 0 {
        seq!['-'] + zero_padded((-y) as nat, 4)
    } else {
        seq!['+'] + zero_padded(y as nat, 4)
    }
}

/// A number below 100 as two digits.
pub open spec fn two_digits(n: nat) -> Seq<char> {
    seq![crate::number::digit(n / 10), crate::number::digit(n % 10)]
}

/// A date and time as `%Y-%m-%d %H:%M` prints it.
pub open spec fn date_time_text(y: i32, mo: u32, d: u32, h: u32, mi: u32) -> Seq<char> {
    year_text(y as int) + seq!['-'] + two_digits(mo as nat) + seq!['-'] + two_digits(d as nat)
        + seq![' '] + two_digits(h as nat) + seq![':'] + two_digits(mi as nat)
}

/// The digits of `n` with leading zeros up to `width` digits.
fn zero_padded_chars(n: u128, width: usize) -> (r: Vec<char>)
    ensures
        r@ == zero_padded(n as nat, width as nat),
{
    let mut out = crate::number::decimal_chars(n);
    let ghost d = out@;
    if out.len() >= width {
        return out;
    }
    let mut k: usize = 0;
    assert(out@ =~= Seq::new(0, |i: int| '0') + d);
    while out.len() < width
        invariant
            d.len() < width,
            d == crate::number::decimal(n as nat),
            out.len() <= width,
            k + d.len() == out.len(),
            out@ == Seq::new(k as nat, |i: int| '0') + d,
        decreases width - out.len(),
    {
        out.insert(0, '0');
        k = k + 1;
        assert(out@ =~= Seq::new(k as nat, |i: int| '0') + d);
    }
    out
}

/// Pushes `n` (below 100) as two digits.
fn push_two_digits(out: &mut Vec<char>, n: u32)
    requires
        n < 100,
    ensures
        final(out)@ == old(out)@ + two_digits(n as nat),
{
    out.push(crate::number::digit_char((n / 10) as u128));
    out.push(crate::number::digit_char((n % 10) as u128));
    assert(final(out)@ =~= old(out)@ + two_digits(n as nat));
}

/// The text `%Y-%m-%d %H:%M` makes of a date and time.
pub fn timestamp_text(y: i32, mo: u32, d: u32, h: u32, mi: u32) -> (r: String)
    requires
        mo < 100,
        d < 100,
        h < 100,
        mi < 100,
    ensures
        r@ == date_time_text(y, mo, d, h, mi),
{
    let mut out: Vec<char>;
    if 0 <= y && y <= 9999 {
        out = zero_padded_chars(y as u128, 4);
    } else if y < 0 {
        let a = (-(y as i128)) as u128;
        out = Vec::new();
        out.push('-');
        let digits = zero_padded_chars(a, 4);
        let mut tail = digits;
        out.append(&mut tail);
    } else {
        out = Vec::new();
        out.push('+');
        let digits = zero_padded_chars(y as u128, 4);
        let mut tail = digits;
        out.append(&mut tail);
    }
    assert(out@ =~= year_text(y as int));
    out.push('-');
    push_two_digits(&mut out, mo);
    out.push('-');
    push_two_digits(&mut out, d);
    out.push(' ');
    push_two_digits(&mut out, h);
    out.push(':');
    push_two_digits(&mut out, mi);
    assert(out@ =~= date_time_text(y, mo, d, h, mi));
    crate::text::string_from_chars(&out)
}

/// Whether `r` is the `%Y-%m-%d %H:%M` text of the local minute of the
/// moment `secs` seconds after the epoch: the minute that holds
/// `secs + off` for some time-zone offset `off` of less than a day.
pub open spec fn is_local_time_text(r: Seq<char>, secs: int) -> bool {
    exists|f: (i32, u32, u32, u32, u32), off: int|
        -86400 < off < 86400 && #[trigger] names_minute(f, secs + off) && r == date_time_text(
            f.0,
            f.1,
            f.2,
            f.3,
            f.4,
        )
}

/// The modified column's text: empty where the time is unknown; otherwise
/// the local date and time of the timestamp as `%Y-%m-%d %H:%M`, which is
/// always there for a timestamp within `within_date_range` (and empty for
/// one outside what `chrono` can represent).
pub fn format_modified(modified: Option<(i64, u32)>) -> (r: String)
    ensures
        modified is None ==> r@.len() == 0,
        modified matches Some(t) && within_date_range(t.0, t.1) ==> r@.len() > 0,
        modified matches Some(t) ==> (r@.len() > 0 ==> is_local_time_text(r@, t.0 as int)),
{
    match modified {
        Some((s, n)) => match local_fields(s, n) {
            Some((y, mo, d, h, mi)) => {
                let r = timestamp_text(y, mo, d, h, mi);
                proof {
                    let f = (y, mo, d, h, mi);
                    let off = choose|off: int|
                        -86400 < off < 86400 && #[trigger] names_minute(f, s + off);
                    assert(names_minute(f, s + off));
                    assert(r@.len() > 0);
                }
                r
            },
            None => String::new(),
        },
        None => String::new(),
    }
}

} // verus!
