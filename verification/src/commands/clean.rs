//! The command that removes images which no tag refers to any more.

use vstd::prelude::*;
use vstd::string::*;
use crate::docker::docker_command::DockerCommand;
use crate::split::{lines, non_empty, piece_views, split_chars, without_return, words};
use crate::text::{chars_eq, chars_of, string_of};

verus! {

/// The identifier of the image that a line of the engine's image list stands
/// for, where the line shows an image without repository and without tag: the
/// third word of a line whose first two words are both `<none>`.
pub open spec fn dangling(line: Seq<char>) -> Option<Seq<char>> {
    let fields = words(line);
    if fields.len() >= 3 && fields[0] == "<none>"@ && fields[1] == "<none>"@ {
        Some(fields[2])
    } else {
        None
    }
}

/// The identifiers of the dangling images among the lines, in order.
pub open spec fn dangling_images(listing: Seq<Seq<char>>) -> Seq<Seq<char>>
    decreases listing.len(),
{
    if listing.len() == 0 {
        Seq::empty()
    } else {
        match dangling(listing.last()) {
            Some(id) => dangling_images(listing.drop_last()).push(id),
            None => dangling_images(listing.drop_last()),
        }
    }
}

/// The lines of the image list that stand for images: all but the heading.
pub open spec fn listed(output: Seq<char>) -> Seq<Seq<char>> {
    if lines(output).len() > 0 {
        lines(output).subrange(1, lines(output).len() as int)
    } else {
        Seq::empty()
    }
}

/// The arguments that remove the dangling images of an image list.
pub open spec fn removal(output: Seq<char>) -> Seq<Seq<char>> {
    seq!["rmi"@] + dangling_images(listed(output))
}

/// The lines of a text.
fn split_lines(chars: &Vec<char>) -> (result: Vec<Vec<char>>)
    ensures
        piece_views(result@) == lines(chars@),
{
    let pieces = split_chars(chars, '\n');
    let ghost views = piece_views(pieces@);
    let last = pieces.len() - 1;
    let mut result: Vec<Vec<char>> = Vec::new();
    let mut k: usize = 0;
    while k < last
        invariant
            k <= last,
            last == pieces@.len() - 1,
            views == piece_views(pieces@),
            piece_views(result@) == views.drop_last().map_values(
                |piece: Seq<char>| without_return(piece),
            ).take(k as int),
        decreases last - k,
    {
        let piece = &pieces[k];
        let ghost before = piece_views(result@);
        let line = if piece.len() > 0 && piece[piece.len() - 1] == '\r' {
            crate::split::slice(piece, 0, piece.len() - 1)
        } else {
            crate::split::slice(piece, 0, piece.len())
        };
        assert(line@ =~= without_return(piece@));
        result.push(line);
        assert(piece_views(result@) =~= before.push(without_return(views[k as int])));
        assert(piece_views(result@) =~= views.drop_last().map_values(
            |piece: Seq<char>| without_return(piece),
        ).take(k + 1));
        k += 1;
    }
    let ghost ended = views.drop_last().map_values(|piece: Seq<char>| without_return(piece));
    assert(ended.take(k as int) =~= ended);
    if pieces[last].len() > 0 {
        let line = crate::split::slice(&pieces[last], 0, pieces[last].len());
        assert(line@ =~= views.last());
        result.push(line);
        assert(piece_views(result@) =~= ended.push(views.last()));
    }
    result
}

/// The words of a line.
fn split_words(line: &Vec<char>) -> (result: Vec<Vec<char>>)
    ensures
        piece_views(result@) == words(line@),
{
    let pieces = split_chars(line, ' ');
    let ghost views = piece_views(pieces@);
    let mut result: Vec<Vec<char>> = Vec::new();
    let mut k: usize = 0;
    assert(piece_views(result@) =~= non_empty(views.take(0)));
    while k < pieces.len()
        invariant
            k <= pieces.len(),
            views == piece_views(pieces@),
            piece_views(result@) == non_empty(views.take(k as int)),
        decreases pieces.len() - k,
    {
        let ghost before = piece_views(result@);
        proof {
            assert(views.take(k + 1).drop_last() =~= views.take(k as int));
            assert(views.take(k + 1).last() == pieces@[k as int]@);
        }
        if pieces[k].len() > 0 {
            let word = crate::split::slice(&pieces[k], 0, pieces[k].len());
            assert(word@ =~= pieces@[k as int]@);
            result.push(word);
            assert(piece_views(result@) =~= before.push(word@));
        }
        k += 1;
    }
    assert(views.take(k as int) =~= views);
    result
}

/// The identifier on a line of the image list, where the line shows a
/// dangling image.
fn dangling_image(line: &Vec<char>) -> (id: Option<String>)
    ensures
        match id {
            Some(id) => dangling(line@) == Some(id@),
            None => dangling(line@) is None,
        },
{
    let fields = split_words(line);
    if fields.len() < 3 {
        return None;
    }
    let none = chars_of("<none>");
    assert(piece_views(fields@)[0] == fields@[0]@);
    assert(piece_views(fields@)[1] == fields@[1]@);
    assert(piece_views(fields@)[2] == fields@[2]@);
    if chars_eq(&fields[0], &none) && chars_eq(&fields[1], &none) {
        Some(string_of(&fields[2]))
    } else {
        None
    }
}

/// The `clean` command.
#[derive(Debug, PartialEq, Eq)]
pub struct Clean {}

impl Clean {
    /// The `clean` command.
    pub fn new() -> Self {
        Clean {  }
    }

    /// The invocation whose output lists the images that the engine holds.
    pub fn list(&self) -> (command: DockerCommand)
        ensures
            command@ == seq!["images"@],
    {
        let mut command = DockerCommand::new();
        command.append("images");
        assert(command@ =~= seq!["images"@]);
        command
    }

    /// The invocation that removes the dangling images, given the output of
    /// the invocation that lists the images.
    pub fn run(self, images: &str) -> (command: DockerCommand)
        ensures
            command@ == removal(images@),
    {
        let chars = chars_of(images);
        let listing = split_lines(&chars);
        let ghost all = piece_views(listing@);
        let mut command = DockerCommand::new();
        command.append("rmi");
        if listing.len() == 0 {
            assert(command@ =~= removal(images@));
            return command;
        }
        let mut k: usize = 1;
        assert(command@ =~= seq!["rmi"@] + dangling_images(all.subrange(1, 1)));
        while k < listing.len()
            invariant
                1 <= k <= listing.len(),
                all == piece_views(listing@),
                command@ == seq!["rmi"@] + dangling_images(all.subrange(1, k as int)),
            decreases listing.len() - k,
        {
            let ghost before = dangling_images(all.subrange(1, k as int));
            proof {
                assert(all.subrange(1, k + 1).drop_last() =~= all.subrange(1, k as int));
                assert(all.subrange(1, k + 1).last() == listing@[k as int]@);
            }
            match dangling_image(&listing[k]) {
                Some(id) => {
                    command.append(id.as_str());
                    assert(command@ =~= seq!["rmi"@] + before.push(id@));
                },
                None => {},
            }
            k += 1;
        }
        command
    }

    /// The command as it is written on a command line.
    pub fn to_string(&self) -> (text: String)
        ensures
            text@ == "clean"@,
    {
        String::from_str("clean")
    }
}

} // verus!
