//! The text of a book: where it is kept, and what of it is the book.

use crate::chars::{chars_of, split_chars, split_on, string_from_chars};
use crate::error::{Error, ErrorKind};
use url::{Position, Url};
use vstd::prelude::*;
use vstd::string::StringExecFns;

verus! {

/// The beginnings of the lines that end the header of a book.
pub open spec fn start_markers() -> Seq<Seq<char>> {
    seq![
        "*END*THE SMALL PRINT"@,
        "*** START OF THE PROJECT GUTENBERG"@,
        "*** START OF THIS PROJECT GUTENBERG"@,
        "This etext was prepared by"@,
        "E-text prepared by"@,
        "Produced by"@,
        "Distributed Proofreading Team"@,
        "Proofreading Team at http://www.pgdp.net"@,
        "http://gallica.bnf.fr)"@,
        "      http://archive.org/details/"@,
        "http://www.pgdp.net"@,
        "by The Internet Archive)"@,
        "by The Internet Archive/Canadian Libraries"@,
        "by The Internet Archive/American Libraries"@,
        "public domain material from the Internet Archive"@,
        "Internet Archive)"@,
        "Internet Archive/Canadian Libraries"@,
        "Internet Archive/American Libraries"@,
        "material from the Google Print project"@,
        "*END THE SMALL PRINT"@,
        "***START OF THE PROJECT GUTENBERG"@,
        "This etext was produced by"@,
        "*** START OF THE COPYRIGHTED"@,
        "The Project Gutenberg"@,
        "http://gutenberg.spiegel.de/ erreichbar."@,
        "Project Runeberg publishes"@,
        "Beginning of this Project Gutenberg"@,
        "Project Gutenberg Online Distributed"@,
        "Gutenberg Online Distributed"@,
        "the Project Gutenberg Online Distributed"@,
        "Project Gutenberg TEI"@,
        "This eBook was prepared by"@,
        "http://gutenberg2000.de erreichbar."@,
        "This Etext was prepared by"@,
        "This Project Gutenberg Etext was prepared by"@,
        "Gutenberg Distributed Proofreaders"@,
        "Project Gutenberg Distributed Proofreaders"@,
        "the Project Gutenberg Online Distributed Proofreading Team"@,
        "**The Project Gutenberg"@,
        "*SMALL PRINT!"@,
        "More information about this book is at the top of this file."@,
        "tells you about restrictions in how the file may be used."@,
        "l'authorization à les utilizer pour preparer ce texte."@,
        "of the etext through OCR."@,
        "*****These eBooks Were Prepared By Thousands of Volunteers!*****"@,
        "We need your donations more than ever!"@,
        " *** START OF THIS PROJECT GUTENBERG"@,
        "****     SMALL PRINT!"@,
        "[\"Small Print\" V."@,
        "      (http://www.ibiblio.org/gutenberg/"@,
        "and the Project Gutenberg Online Distributed Proofreading Team"@,
        "Mary Meehan, and the Project Gutenberg Online Distributed Proofreading"@,
        "                this Project Gutenberg edition."@,
    ]
}

/// The beginnings of the lines that begin the footer of a book.
pub open spec fn end_markers() -> Seq<Seq<char>> {
    seq![
        "*** END OF THE PROJECT GUTENBERG"@,
        "*** END OF THIS PROJECT GUTENBERG"@,
        "***END OF THE PROJECT GUTENBERG"@,
        "End of the Project Gutenberg"@,
        "End of The Project Gutenberg"@,
        "Ende dieses Project Gutenberg"@,
        "by Project Gutenberg"@,
        "End of Project Gutenberg"@,
        "End of this Project Gutenberg"@,
        "Ende dieses Projekt Gutenberg"@,
        "        ***END OF THE PROJECT GUTENBERG"@,
        "*** END OF THE COPYRIGHTED"@,
        "End of this is COPYRIGHTED"@,
        "Ende dieses Etextes "@,
        "Ende dieses Project Gutenber"@,
        "Ende diese Project Gutenberg"@,
        "**This is a COPYRIGHTED Project Gutenberg Etext, Details Above**"@,
        "Fin de Project Gutenberg"@,
        "The Project Gutenberg Etext of "@,
        "Ce document fut presente en lecture"@,
        "Ce document fut présenté en lecture"@,
        "More information about this book is at the top of this file."@,
        "We need your donations more than ever!"@,
        "END OF PROJECT GUTENBERG"@,
        " End of the Project Gutenberg"@,
        " *** END OF THIS PROJECT GUTENBERG"@,
    ]
}

/// The beginning of the line that opens a passage of legal text.
pub open spec fn legalese_start_markers() -> Seq<Seq<char>> {
    seq!["<<THIS ELECTRONIC VERSION OF"@]
}

/// The beginning of the line that closes a passage of legal text.
pub open spec fn legalese_end_markers() -> Seq<Seq<char>> {
    seq!["SERVICE THAT CHARGES FOR DOWNLOAD"@]
}

/// The characters of each string of a row.
pub open spec fn slices_chars(texts: Seq<&str>) -> Seq<Seq<char>> {
    Seq::new(texts.len(), |i: int| texts[i]@)
}

/// What each vector of characters holds.
pub open spec fn lines_view(lines: Seq<Vec<char>>) -> Seq<Seq<char>> {
    Seq::new(lines.len(), |i: int| lines[i]@)
}

/// Whether `line` begins with one of `tokens`.
pub open spec fn starts_with_any(line: Seq<char>, tokens: Seq<Seq<char>>) -> bool {
    exists|i: int| 0 <= i < tokens.len() && (#[trigger] tokens[i]).is_prefix_of(line)
}

/// The beginnings of the lines that end the header of a book.
pub fn text_start_markers() -> (markers: Vec<&'static str>)
    ensures
        slices_chars(markers@) == start_markers(),
{
    let mut markers: Vec<&'static str> = Vec::new();
    markers.push("*END*THE SMALL PRINT");
    markers.push("*** START OF THE PROJECT GUTENBERG");
    markers.push("*** START OF THIS PROJECT GUTENBERG");
    markers.push("This etext was prepared by");
    markers.push("E-text prepared by");
    markers.push("Produced by");
    markers.push("Distributed Proofreading Team");
    markers.push("Proofreading Team at http://www.pgdp.net");
    markers.push("http://gallica.bnf.fr)");
    markers.push("      http://archive.org/details/");
    markers.push("http://www.pgdp.net");
    markers.push("by The Internet Archive)");
    markers.push("by The Internet Archive/Canadian Libraries");
    markers.push("by The Internet Archive/American Libraries");
    markers.push("public domain material from the Internet Archive");
    markers.push("Internet Archive)");
    markers.push("Internet Archive/Canadian Libraries");
    markers.push("Internet Archive/American Libraries");
    markers.push("material from the Google Print project");
    markers.push("*END THE SMALL PRINT");
    markers.push("***START OF THE PROJECT GUTENBERG");
    markers.push("This etext was produced by");
    markers.push("*** START OF THE COPYRIGHTED");
    markers.push("The Project Gutenberg");
    markers.push("http://gutenberg.spiegel.de/ erreichbar.");
    markers.push("Project Runeberg publishes");
    markers.push("Beginning of this Project Gutenberg");
    markers.push("Project Gutenberg Online Distributed");
    markers.push("Gutenberg Online Distributed");
    markers.push("the Project Gutenberg Online Distributed");
    markers.push("Project Gutenberg TEI");
    markers.push("This eBook was prepared by");
    markers.push("http://gutenberg2000.de erreichbar.");
    markers.push("This Etext was prepared by");
    markers.push("This Project Gutenberg Etext was prepared by");
    markers.push("Gutenberg Distributed Proofreaders");
    markers.push("Project Gutenberg Distributed Proofreaders");
    markers.push("the Project Gutenberg Online Distributed Proofreading Team");
    markers.push("**The Project Gutenberg");
    markers.push("*SMALL PRINT!");
    markers.push("More information about this book is at the top of this file.");
    markers.push("tells you about restrictions in how the file may be used.");
    markers.push("l'authorization à les utilizer pour preparer ce texte.");
    markers.push("of the etext through OCR.");
    markers.push("*****These eBooks Were Prepared By Thousands of Volunteers!*****");
    markers.push("We need your donations more than ever!");
    markers.push(" *** START OF THIS PROJECT GUTENBERG");
    markers.push("****     SMALL PRINT!");
    markers.push("[\"Small Print\" V.");
    markers.push("      (http://www.ibiblio.org/gutenberg/");
    markers.push("and the Project Gutenberg Online Distributed Proofreading Team");
    markers.push("Mary Meehan, and the Project Gutenberg Online Distributed Proofreading");
    markers.push("                this Project Gutenberg edition.");
    assert(slices_chars(markers@) =~= start_markers());
    markers
}

/// The beginnings of the lines that begin the footer of a book.
pub fn text_end_markers() -> (markers: Vec<&'static str>)
    ensures
        slices_chars(markers@) == end_markers(),
{
    let mut markers: Vec<&'static str> = Vec::new();
    markers.push("*** END OF THE PROJECT GUTENBERG");
    markers.push("*** END OF THIS PROJECT GUTENBERG");
    markers.push("***END OF THE PROJECT GUTENBERG");
    markers.push("End of the Project Gutenberg");
    markers.push("End of The Project Gutenberg");
    markers.push("Ende dieses Project Gutenberg");
    markers.push("by Project Gutenberg");
    markers.push("End of Project Gutenberg");
    markers.push("End of this Project Gutenberg");
    markers.push("Ende dieses Projekt Gutenberg");
    markers.push("        ***END OF THE PROJECT GUTENBERG");
    markers.push("*** END OF THE COPYRIGHTED");
    markers.push("End of this is COPYRIGHTED");
    markers.push("Ende dieses Etextes ");
    markers.push("Ende dieses Project Gutenber");
    markers.push("Ende diese Project Gutenberg");
    markers.push("**This is a COPYRIGHTED Project Gutenberg Etext, Details Above**");
    markers.push("Fin de Project Gutenberg");
    markers.push("The Project Gutenberg Etext of ");
    markers.push("Ce document fut presente en lecture");
    markers.push("Ce document fut présenté en lecture");
    markers.push("More information about this book is at the top of this file.");
    markers.push("We need your donations more than ever!");
    markers.push("END OF PROJECT GUTENBERG");
    markers.push(" End of the Project Gutenberg");
    markers.push(" *** END OF THIS PROJECT GUTENBERG");
    assert(slices_chars(markers@) =~= end_markers());
    markers
}

/// Whether `line` begins with `token`.
fn chars_start_with(line: &Vec<char>, token: &Vec<char>) -> (starts: bool)
    ensures
        starts == token@.is_prefix_of(line@),
{
    let n = token.len();
    if n > line.len() {
        return false;
    }
    let mut i: usize = 0;
    while i < n
        invariant
            n == token@.len(),
            n <= line@.len(),
            i <= n,
            forall|j: int| 0 <= j < i ==> token@[j] == line@[j],
        decreases n - i,
    {
        if token[i] != line[i] {
            assert(line@.subrange(0, n as int)[i as int] == line@[i as int]);
            return false;
        }
        i += 1;
    }
    assert(token@ =~= line@.subrange(0, n as int));
    true
}

/// Whether `line` begins with one of `tokens`.
fn chars_start_with_any(line: &Vec<char>, tokens: &Vec<Vec<char>>) -> (starts: bool)
    ensures
        starts == starts_with_any(line@, lines_view(tokens@)),
{
    let n = tokens.len();
    let mut i: usize = 0;
    while i < n
        invariant
            n == tokens@.len(),
            i <= n,
            forall|j: int| 0 <= j < i ==> !(#[trigger] lines_view(tokens@)[j]).is_prefix_of(line@),
        decreases n - i,
    {
        if chars_start_with(line, &tokens[i]) {
            assert(lines_view(tokens@)[i as int].is_prefix_of(line@));
            return true;
        }
        i += 1;
    }
    false
}

/// The characters of each of `tokens`.
fn tokens_chars(tokens: &[&str]) -> (chars: Vec<Vec<char>>)
    ensures
        lines_view(chars@) == slices_chars(tokens@),
{
    let n = tokens.len();
    let mut chars: Vec<Vec<char>> = Vec::new();
    let mut i: usize = 0;
    while i < n
        invariant
            n == tokens@.len(),
            i <= n,
            chars@.len() == i,
            forall|j: int| 0 <= j < i ==> (#[trigger] chars@[j])@ == tokens@[j]@,
        decreases n - i,
    {
        chars.push(chars_of(tokens[i]));
        i += 1;
    }
    assert(lines_view(chars@) =~= slices_chars(tokens@));
    chars
}

/// Whether `line` begins with one of `tokens`.
pub fn line_starts_with_any(line: &str, tokens: &[&str]) -> (starts: bool)
    ensures
        starts == starts_with_any(line@, slices_chars(tokens@)),
{
    let line_chars = chars_of(line);
    let tokens = tokens_chars(tokens);
    chars_start_with_any(&line_chars, &tokens)
}

/// Where the stripping of a book stands: the lines kept since the header
/// was last seen to end, the number of lines ever kept, whether a passage of
/// legal text is being passed over, and whether the footer has begun.
pub struct StripState {
    pub kept: Seq<Seq<char>>,
    pub count: int,
    pub ignoring: bool,
    pub ended: bool,
}

/// The stripping after one more line. Among the first 601 lines kept, a
/// line that ends the header drops all that was kept. After 100 lines kept,
/// a line that begins the footer ends the book. The lines that open and
/// close a passage of legal text are dropped with the passage. Every other
/// line is kept.
pub open spec fn strip_step(state: StripState, line: Seq<char>) -> StripState {
    if state.ended {
        state
    } else if state.count <= 600 && starts_with_any(line, start_markers()) {
        StripState { kept: Seq::empty(), ..state }
    } else if state.count >= 100 && starts_with_any(line, end_markers()) {
        StripState { ended: true, ..state }
    } else if starts_with_any(line, legalese_start_markers()) {
        StripState { ignoring: true, ..state }
    } else if starts_with_any(line, legalese_end_markers()) {
        StripState { ignoring: false, ..state }
    } else if !state.ignoring {
        StripState { kept: state.kept.push(line), count: state.count + 1, ..state }
    } else {
        state
    }
}

/// The stripping after the first `n` lines.
pub open spec fn strip_lines(lines: Seq<Seq<char>>, n: int) -> StripState
    decreases n,
{
    if n <= 0 {
        StripState { kept: Seq::empty(), count: 0, ignoring: false, ended: false }
    } else {
        strip_step(strip_lines(lines, n - 1), lines[n - 1])
    }
}

/// The first `n` lines, with a line feed between each two.
pub open spec fn join_lines(lines: Seq<Seq<char>>, n: int) -> Seq<char>
    decreases n,
{
    if n <= 0 {
        Seq::empty()
    } else if n == 1 {
        lines[0]
    } else {
        join_lines(lines, n - 1).push('\n') + lines[n - 1]
    }
}

/// The lines of a text, cut at the line feeds.
pub open spec fn text_lines(text: Seq<char>) -> Seq<Seq<char>> {
    split_on(text, '\n')
}

/// A book without the header and the footer that the library put round it.
pub open spec fn stripped(text: Seq<char>) -> Seq<char> {
    let kept = strip_lines(text_lines(text), text_lines(text).len() as int).kept;
    join_lines(kept, kept.len() as int)
}

/// A downloaded book without the header and the footer that the library
/// put round it: the lines between them, without the passages of legal
/// text, with a line feed between each two.
pub fn strip_headers(text: String) -> (book: String)
    ensures
        book@ == stripped(text@),
{
    let chars = chars_of(text.as_str());
    let lines = split_chars(&chars, '\n');
    let start_tokens = tokens_chars(text_start_markers().as_slice());
    let end_tokens = tokens_chars(text_end_markers().as_slice());
    let mut legalese_start: Vec<&'static str> = Vec::new();
    legalese_start.push("<<THIS ELECTRONIC VERSION OF");
    let mut legalese_end: Vec<&'static str> = Vec::new();
    legalese_end.push("SERVICE THAT CHARGES FOR DOWNLOAD");
    let legalese_start_tokens = tokens_chars(legalese_start.as_slice());
    let legalese_end_tokens = tokens_chars(legalese_end.as_slice());
    assert(lines_view(legalese_start_tokens@) =~= legalese_start_markers());
    assert(lines_view(legalese_end_tokens@) =~= legalese_end_markers());
    let ghost all = text_lines(text@);
    let n = lines.len();
    let mut kept: Vec<usize> = Vec::new();
    let mut count: usize = 0;
    let mut ignoring = false;
    let mut ended = false;
    let mut i: usize = 0;
    assert(Seq::new(0, |k: int| all[kept@[k] as int]) =~= Seq::<Seq<char>>::empty());
    while i < n
        invariant
            n == lines@.len(),
            i <= n,
            all == lines_view(lines@),
            count <= i,
            lines_view(start_tokens@) == start_markers(),
            lines_view(end_tokens@) == end_markers(),
            lines_view(legalese_start_tokens@) == legalese_start_markers(),
            lines_view(legalese_end_tokens@) == legalese_end_markers(),
            forall|k: int| 0 <= k < kept@.len() ==> (#[trigger] kept@[k]) < i,
            strip_lines(all, i as int) == (StripState {
                kept: Seq::new(kept@.len(), |k: int| all[kept@[k] as int]),
                count: count as int,
                ignoring,
                ended,
            }),
        decreases n - i,
    {
        let line = &lines[i];
        assert(line@ == all[i as int]);
        let ghost before = Seq::new(kept@.len(), |k: int| all[kept@[k] as int]);
        if ended {
        } else if count <= 600 && chars_start_with_any(line, &start_tokens) {
            kept = Vec::new();
            assert(Seq::new(kept@.len(), |k: int| all[kept@[k] as int]) =~= Seq::<
                Seq<char>,
            >::empty());
        } else if count >= 100 && chars_start_with_any(line, &end_tokens) {
            ended = true;
        } else if chars_start_with_any(line, &legalese_start_tokens) {
            ignoring = true;
        } else if chars_start_with_any(line, &legalese_end_tokens) {
            ignoring = false;
        } else if !ignoring {
            kept.push(i);
            count += 1;
            assert(Seq::new(kept@.len(), |k: int| all[kept@[k] as int]) =~= before.push(
                all[i as int],
            ));
        }
        i += 1;
    }
    let ghost kept_lines = Seq::new(kept@.len(), |k: int| all[kept@[k] as int]);
    let mut book: Vec<char> = Vec::new();
    let m = kept.len();
    let mut j: usize = 0;
    while j < m
        invariant
            m == kept@.len(),
            j <= m,
            n == lines@.len(),
            all == lines_view(lines@),
            forall|k: int| 0 <= k < kept@.len() ==> (#[trigger] kept@[k]) < n,
            kept_lines == Seq::new(kept@.len(), |k: int| all[kept@[k] as int]),
            book@ == join_lines(kept_lines, j as int),
        decreases m - j,
    {
        if j > 0 {
            book.push('\n');
        }
        let line = &lines[kept[j]];
        assert(line@ == kept_lines[j as int]);
        let ghost head = book@;
        let len = line.len();
        let mut k: usize = 0;
        while k < len
            invariant
                len == line@.len(),
                k <= len,
                book@ == head + line@.subrange(0, k as int),
            decreases len - k,
        {
            book.push(line[k]);
            k += 1;
        }
        assert(line@.subrange(0, len as int) =~= line@);
        assert(book@ =~= join_lines(kept_lines, j + 1));
        j += 1;
    }
    string_from_chars(&book)
}

#[verifier::external_type_specification]
#[verifier::external_body]
pub struct ExParseError(url::ParseError);

/// The part of the link `link` from the end of its host to the end of its
/// path, and nothing where `link` is no URL.
pub uninterp spec fn url_after_host(link: Seq<char>) -> Option<Seq<char>>;

/// `Url::parse`, then the slice from `Position::AfterHost` to
/// `Position::AfterPath`: what the link holds between its host and the end
/// of its path.
#[verifier::external_body]
fn parse_after_host(link: &str) -> (r: Result<String, url::ParseError>)
    ensures
        match r {
            Ok(text) => url_after_host(link@) == Some(text@),
            Err(_) => url_after_host(link@) is None,
        },
{
    Url::parse(link).map(|url| url[Position::AfterHost..Position::AfterPath].to_string())
}

/// `ParseError`'s `Display`: why a link is no URL, in words.
#[verifier::external_body]
fn url_error_text(error: &url::ParseError) -> (text: String) {
    error.to_string()
}

/// The segments of a path, cut at `/`.
pub open spec fn path_pieces(path: Seq<char>) -> Seq<Seq<char>> {
    split_on(path, '/')
}

/// The last segment of a path, where an empty segment at the very end does
/// not count; nothing where no segment is left.
pub open spec fn last_segment(path: Seq<char>) -> Option<Seq<char>> {
    let pieces = path_pieces(path);
    let kept = if pieces.len() > 0 && pieces.last().len() == 0 {
        pieces.drop_last()
    } else {
        pieces
    };
    if kept.len() == 0 {
        None
    } else {
        Some(kept.last())
    }
}

/// The last segment of a path, where an empty segment at the very end does
/// not count.
pub fn file_name_in(path: &str) -> (name: Option<String>)
    ensures
        match last_segment(path@) {
            Some(text) => name is Some && name->0@ == text,
            None => name is None,
        },
{
    let chars = chars_of(path);
    let pieces = split_chars(&chars, '/');
    let n = pieces.len();
    let ghost all = path_pieces(path@);
    assert(all[n - 1] == pieces@[n - 1]@);
    let count = if pieces[n - 1].len() == 0 {
        n - 1
    } else {
        n
    };
    if count == 0 {
        None
    } else {
        assert(all[count - 1] == pieces@[count - 1]@);
        Some(string_from_chars(&pieces[count - 1]))
    }
}

/// The name under which the text behind `link` is kept in the folder of
/// texts: the last segment of the path of the link. Fails with `InvalidUrl`
/// where `link` is no URL, and with `InvalidCacheLocation` where its path
/// has no segment.
pub fn text_file_name(link: &str) -> (r: Result<String, Error>)
    ensures
        match url_after_host(link@) {
            None => r is Err && r->Err_0.kind() == ErrorKind::InvalidUrl,
            Some(path) => match last_segment(path) {
                Some(name) => r is Ok && r->Ok_0@ == name,
                None => r is Err && r->Err_0.kind() == ErrorKind::InvalidCacheLocation,
            },
        },
{
    match parse_after_host(link) {
        Err(e) => Err(Error::InvalidUrl(url_error_text(&e))),
        Ok(path) => match file_name_in(path.as_str()) {
            Some(name) => Ok(name),
            None => {
                let mut message = String::from_str("Invalid url ");
                message.append(path.as_str());
                Err(Error::InvalidCacheLocation(message))
            },
        },
    }
}

} // verus!
