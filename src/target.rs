//! Where a downloaded subtitle is written, and the absolute form of a
//! video's path.

use crate::error::{result_view, Error};
use crate::paths::{
    extension_of, file_stem_of, is_absolute_path, joined_path, opt_view, parent_of, path_extension,
    path_file_stem, path_is_absolute, path_join, path_parent, url_parses, url_path, url_path_of,
};
use vstd::prelude::*;

verus! {

/// What is known of a subtitle candidate: where to download it from, and
/// its language.
pub struct SubInfo {
    pub surl: String,
    pub language: String,
}

/// The character of a decimal digit.
pub open spec fn digit_char(d: nat) -> char {
    seq!['0', '1', '2', '3', '4', '5', '6', '7', '8', '9'][d as int]
}

/// The decimal notation of `n`, without leading zeros.
pub open spec fn decimal_spec(n: nat) -> Seq<char>
    decreases n,
{
    if n < 10 {
        seq![digit_char(n)]
    } else {
        decimal_spec(n / 10) + seq![digit_char(n % 10)]
    }
}

/// The extension of a subtitle's file: the one its URL carries, else `srt`.
pub open spec fn extension_or_default(ext: Option<Seq<char>>) -> Seq<char> {
    match ext {
        Some(e) => e,
        None => seq!['s', 'r', 't'],
    }
}

/// The part of a subtitle's file name before its index.
pub open spec fn name_prefix(stem: Seq<char>) -> Seq<char> {
    stem + seq!['_']
}

/// The part of a subtitle's file name after its language.
pub open spec fn name_suffix(ext: Option<Seq<char>>) -> Seq<char> {
    seq!['.'] + extension_or_default(ext)
}

/// The file name `{stem}_{index}_{language}.{extension}`.
pub open spec fn file_name_spec(stem: Seq<char>, index: nat, language: Seq<char>, ext: Option<Seq<char>>) -> Seq<char> {
    name_prefix(stem) + decimal_spec(index) + seq!['_'] + language + name_suffix(ext)
}

/// Where the subtitle of index `index`, language `language` and download
/// address `surl` is written for the video at `video`.
pub open spec fn target_path_spec(video: Seq<char>, index: nat, surl: Seq<char>, language: Seq<char>) -> Result<Seq<char>, Error> {
    if parent_of(video) is None || file_stem_of(video) is None {
        Err(Error::InvariantViolation)
    } else if !url_parses(surl) {
        Err(Error::UrlParse)
    } else {
        Ok(
            joined_path(
                parent_of(video)->Some_0,
                file_name_spec(
                    file_stem_of(video)->Some_0,
                    index,
                    language,
                    extension_of(url_path_of(surl)),
                ),
            ),
        )
    }
}

/// The absolute form of a canonical path: the path itself if absolute,
/// else the path joined onto the working directory, which must be known.
pub open spec fn video_path_spec(canonical: Seq<char>, working_dir: Option<Seq<char>>) -> Result<Seq<char>, Error> {
    if is_absolute_path(canonical) {
        Ok(canonical)
    } else {
        match working_dir {
            Some(d) => Ok(joined_path(d, canonical)),
            None => Err(Error::PathResolution),
        }
    }
}

fn digit_str(d: usize) -> (r: &'static str)
    requires
        d < 10,
    ensures
        r@ == seq![digit_char(d as nat)],
{
    proof {
        reveal_strlit("0");
        reveal_strlit("1");
        reveal_strlit("2");
        reveal_strlit("3");
        reveal_strlit("4");
        reveal_strlit("5");
        reveal_strlit("6");
        reveal_strlit("7");
        reveal_strlit("8");
        reveal_strlit("9");
    }
    if d == 0 {
        "0"
    } else if d == 1 {
        "1"
    } else if d == 2 {
        "2"
    } else if d == 3 {
        "3"
    } else if d == 4 {
        "4"
    } else if d == 5 {
        "5"
    } else if d == 6 {
        "6"
    } else if d == 7 {
        "7"
    } else if d == 8 {
        "8"
    } else {
        "9"
    }
}

/// Appends the decimal notation of `n` to `out`.
pub fn push_decimal(n: usize, out: &mut String)
    ensures
        final(out)@ == old(out)@ + decimal_spec(n as nat),
    decreases n,
{
    if n >= 10 {
        push_decimal(n / 10, out);
    }
    out.append(digit_str(n % 10));
    assert(out@ =~= old(out)@ + decimal_spec(n as nat));
}

/// The file name `{stem}_{index}_{language}.{extension}` of a subtitle,
/// where the extension is `srt` when none is given.
pub fn target_file_name(stem: &str, index: usize, language: &str, extension: Option<String>) -> (r: String)
    ensures
        r@ == file_name_spec(stem@, index as nat, language@, opt_view(extension)),
{
    proof {
        reveal_strlit("_");
        reveal_strlit(".");
        reveal_strlit("srt");
    }
    let mut name = stem.to_owned();
    name.append("_");
    push_decimal(index, &mut name);
    name.append("_");
    name.append(language);
    name.append(".");
    match extension {
        Some(e) => name.append(e.as_str()),
        None => name.append("srt"),
    }
    assert(name@ =~= file_name_spec(stem@, index as nat, language@, opt_view(extension)));
    name
}

/// The path that the subtitle `sub_info`, the candidate of index `index`,
/// is written to for the video at `video_path`: in the video's directory,
/// named after the video's stem, the index, the language and the extension
/// of the URL's path.
pub fn calc_target_path(video_path: &str, index: usize, sub_info: &SubInfo) -> (r: Result<String, Error>)
    ensures
        result_view(r) == target_path_spec(video_path@, index as nat, sub_info.surl@, sub_info.language@),
{
    let parent = match path_parent(video_path) {
        Some(p) => p,
        None => return Err(Error::InvariantViolation),
    };
    let stem = match path_file_stem(video_path) {
        Some(s) => s,
        None => return Err(Error::InvariantViolation),
    };
    let sub_path = match url_path(sub_info.surl.as_str()) {
        Ok(p) => p,
        Err(_) => return Err(Error::UrlParse),
    };
    let extension = path_extension(sub_path.as_str());
    let name = target_file_name(stem.as_str(), index, sub_info.language.as_str(), extension);
    Ok(path_join(parent.as_str(), name.as_str()))
}

/// The absolute form of the canonical path of a video: the path itself
/// when it is absolute, else the path joined onto `working_dir`. Without a
/// working directory to join onto, the result is [`Error::PathResolution`].
pub fn calc_video_path(canonical: &str, working_dir: Option<String>) -> (r: Result<String, Error>)
    ensures
        result_view(r) == video_path_spec(canonical@, opt_view(working_dir)),
{
    if path_is_absolute(canonical) {
        Ok(canonical.to_owned())
    } else {
        match working_dir {
            Some(d) => Ok(path_join(d.as_str(), canonical)),
            None => Err(Error::PathResolution),
        }
    }
}

/// Changing only the index of a subtitle changes only the index segment
/// of its path: every other part is the same for each index.
pub proof fn lemma_index_segment(video: Seq<char>, first: nat, second: nat, surl: Seq<char>, language: Seq<char>)
    ensures
        target_path_spec(video, first, surl, language) is Ok <==> target_path_spec(video, second, surl, language) is Ok,
        target_path_spec(video, first, surl, language) is Ok ==> {
            let parent = parent_of(video)->Some_0;
            let stem = file_stem_of(video)->Some_0;
            let suffix = seq!['_'] + language + name_suffix(extension_of(url_path_of(surl)));
            &&& target_path_spec(video, first, surl, language) == Ok::<Seq<char>, Error>(
                joined_path(parent, name_prefix(stem) + decimal_spec(first) + suffix),
            )
            &&& target_path_spec(video, second, surl, language) == Ok::<Seq<char>, Error>(
                joined_path(parent, name_prefix(stem) + decimal_spec(second) + suffix),
            )
        },
{
    let ext = extension_of(url_path_of(surl));
    let stem = file_stem_of(video)->Some_0;
    assert(file_name_spec(stem, first, language, ext) =~= name_prefix(stem) + decimal_spec(first) + (seq!['_'] + language + name_suffix(ext)));
    assert(file_name_spec(stem, second, language, ext) =~= name_prefix(stem) + decimal_spec(second) + (seq!['_'] + language + name_suffix(ext)));
}

/// Changing only the language of a subtitle changes only the language
/// segment of its path: every other part is the same for each language.
pub proof fn lemma_language_segment(video: Seq<char>, index: nat, surl: Seq<char>, first: Seq<char>, second: Seq<char>)
    ensures
        target_path_spec(video, index, surl, first) is Ok <==> target_path_spec(video, index, surl, second) is Ok,
        target_path_spec(video, index, surl, first) is Ok ==> {
            let parent = parent_of(video)->Some_0;
            let prefix = name_prefix(file_stem_of(video)->Some_0) + decimal_spec(index) + seq!['_'];
            let suffix = name_suffix(extension_of(url_path_of(surl)));
            &&& target_path_spec(video, index, surl, first) == Ok::<Seq<char>, Error>(
                joined_path(parent, prefix + first + suffix),
            )
            &&& target_path_spec(video, index, surl, second) == Ok::<Seq<char>, Error>(
                joined_path(parent, prefix + second + suffix),
            )
        },
{
}

proof fn lemma_digit_char_injective(a: nat, b: nat)
    requires
        a < 10,
        b < 10,
        digit_char(a) == digit_char(b),
    ensures
        a == b,
{
    let d = seq!['0', '1', '2', '3', '4', '5', '6', '7', '8', '9'];
    assert(d[0] == '0' && d[1] == '1' && d[2] == '2' && d[3] == '3' && d[4] == '4');
    assert(d[5] == '5' && d[6] == '6' && d[7] == '7' && d[8] == '8' && d[9] == '9');
}

proof fn lemma_decimal_len(n: nat)
    ensures
        decimal_spec(n).len() >= 1,
        n >= 10 ==> decimal_spec(n).len() >= 2,
    decreases n,
{
    if n >= 10 {
        lemma_decimal_len(n / 10);
    }
}

/// Distinct numbers have distinct decimal notations.
pub proof fn lemma_decimal_injective(a: nat, b: nat)
    requires
        decimal_spec(a) == decimal_spec(b),
    ensures
        a == b,
    decreases a,
{
    lemma_decimal_len(a);
    lemma_decimal_len(b);
    let da = decimal_spec(a);
    if a < 10 && b < 10 {
        assert(da[0] == digit_char(a));
        assert(decimal_spec(b)[0] == digit_char(b));
        lemma_digit_char_injective(a, b);
    } else if a >= 10 && b >= 10 {
        assert(da.drop_last() =~= decimal_spec(a / 10));
        assert(decimal_spec(b).drop_last() =~= decimal_spec(b / 10));
        lemma_decimal_injective(a / 10, b / 10);
        assert(da.last() == digit_char(a % 10));
        assert(decimal_spec(b).last() == digit_char(b % 10));
        lemma_digit_char_injective(a % 10, b % 10);
    }
}

/// Distinct indices give distinct file names, all else being equal.
pub proof fn lemma_index_distinguishes_names(stem: Seq<char>, first: nat, second: nat, language: Seq<char>, ext: Option<Seq<char>>)
    requires
        first != second,
    ensures
        file_name_spec(stem, first, language, ext) != file_name_spec(stem, second, language, ext),
{
    let p = name_prefix(stem);
    let t = seq!['_'] + language + name_suffix(ext);
    let x = file_name_spec(stem, first, language, ext);
    let y = file_name_spec(stem, second, language, ext);
    assert(x =~= p + decimal_spec(first) + t);
    assert(y =~= p + decimal_spec(second) + t);
    if x == y {
        assert(decimal_spec(first).len() == decimal_spec(second).len());
        assert(decimal_spec(first) =~= x.subrange(p.len() as int, (p.len() + decimal_spec(first).len()) as int));
        assert(decimal_spec(second) =~= y.subrange(p.len() as int, (p.len() + decimal_spec(second).len()) as int));
        lemma_decimal_injective(first, second);
    }
}

} // verus!
