//! Chess diagrams: a position, written in Forsyth-Edwards notation, drawn as
//! a table of eight ranks by eight files.
//!
//! Reading the notation and checking that the position is a legal one is the
//! `shakmaty` crate's work. What comes back is held here as plain values, one
//! entry for each square, and drawn from those.

use shakmaty::fen::Fen;
use shakmaty::{CastlingMode, Chess, Position, Square};
use vstd::prelude::*;
use vstd::string::StringExecFns;

verus! {

/// The side a piece belongs to.
#[derive(Clone, Copy, Debug, PartialEq, Eq, Structural)]
pub enum Color {
    White,
    Black,
}

/// The kind of a piece.
#[derive(Clone, Copy, Debug, PartialEq, Eq, Structural)]
pub enum Role {
    King,
    Queen,
    Rook,
    Bishop,
    Knight,
    Pawn,
}

/// A piece on the board.
#[derive(Clone, Copy, Debug, PartialEq, Eq, Structural)]
pub struct Piece {
    pub color: Color,
    pub role: Role,
}

/// The figure that is printed for a piece.
pub open spec fn glyph(color: Color, role: Role) -> Seq<char> {
    match (color, role) {
        (Color::White, Role::King) => "\u{2654}"@,
        (Color::White, Role::Queen) => "\u{2655}"@,
        (Color::White, Role::Rook) => "\u{2656}"@,
        (Color::White, Role::Bishop) => "\u{2657}"@,
        (Color::White, Role::Knight) => "\u{2658}"@,
        (Color::White, Role::Pawn) => "\u{2659}"@,
        (Color::Black, Role::King) => "\u{265a}"@,
        (Color::Black, Role::Queen) => "\u{265b}"@,
        (Color::Black, Role::Rook) => "\u{265c}"@,
        (Color::Black, Role::Bishop) => "\u{265d}"@,
        (Color::Black, Role::Knight) => "\u{265e}"@,
        (Color::Black, Role::Pawn) => "\u{265f}"@,
    }
}

/// The piece that a letter of the notation stands for: upper case for White,
/// lower case for Black; `None` for any other character.
pub open spec fn piece_of(symbol: char) -> Option<Piece> {
    if symbol == 'K' {
        Some(Piece { color: Color::White, role: Role::King })
    } else if symbol == 'Q' {
        Some(Piece { color: Color::White, role: Role::Queen })
    } else if symbol == 'R' {
        Some(Piece { color: Color::White, role: Role::Rook })
    } else if symbol == 'B' {
        Some(Piece { color: Color::White, role: Role::Bishop })
    } else if symbol == 'N' {
        Some(Piece { color: Color::White, role: Role::Knight })
    } else if symbol == 'P' {
        Some(Piece { color: Color::White, role: Role::Pawn })
    } else if symbol == 'k' {
        Some(Piece { color: Color::Black, role: Role::King })
    } else if symbol == 'q' {
        Some(Piece { color: Color::Black, role: Role::Queen })
    } else if symbol == 'r' {
        Some(Piece { color: Color::Black, role: Role::Rook })
    } else if symbol == 'b' {
        Some(Piece { color: Color::Black, role: Role::Bishop })
    } else if symbol == 'n' {
        Some(Piece { color: Color::Black, role: Role::Knight })
    } else if symbol == 'p' {
        Some(Piece { color: Color::Black, role: Role::Pawn })
    } else {
        None
    }
}

/// What stands on a square, given the letter there if any.
pub open spec fn occupant(symbol: Option<char>) -> Option<Piece> {
    match symbol {
        Some(c) => piece_of(c),
        None => None,
    }
}

/// What is printed on a square: the figure of the piece on it, or a space
/// that does not collapse.
pub open spec fn square_text(piece: Option<Piece>) -> Seq<char> {
    match piece {
        Some(p) => glyph(p.color, p.role),
        None => "&nbsp;"@,
    }
}

/// One square of the diagram. Squares are light where rank and file, both
/// counted from zero, add up to an even number.
pub open spec fn square_markup(squares: Seq<Option<Piece>>, rank: int, file: int) -> Seq<char> {
    "<td class=\""@ + (if (rank + file) % 2 == 0 {
        "light"@
    } else {
        "dark"@
    }) + "\">"@ + square_text(squares[rank * 8 + file]) + "</td>"@
}

/// The first `files` squares of a rank, from the first file on.
pub open spec fn files_markup(squares: Seq<Option<Piece>>, rank: int, files: int) -> Seq<char>
    decreases files,
{
    if files <= 0 {
        Seq::empty()
    } else {
        files_markup(squares, rank, files - 1) + square_markup(squares, rank, files - 1)
    }
}

/// One rank of the diagram.
pub open spec fn rank_markup(squares: Seq<Option<Piece>>, rank: int) -> Seq<char> {
    "<tr>"@ + files_markup(squares, rank, 8) + "</tr>"@
}

/// The ranks from the eighth down to `rank`.
pub open spec fn ranks_markup(squares: Seq<Option<Piece>>, rank: int) -> Seq<char>
    decreases 8 - rank,
{
    if rank >= 8 {
        Seq::empty()
    } else {
        ranks_markup(squares, rank + 1) + rank_markup(squares, rank)
    }
}

/// The diagram of a position: a table with the eighth rank on top and the
/// first file on the left.
pub open spec fn diagram_markup(squares: Seq<Option<Piece>>) -> Seq<char> {
    "<table class=\"chess-board\"><tbody>"@ + ranks_markup(squares, 0) + "</tbody></table>"@
}

/// The placement of the pieces in the position that `fen` describes, as the
/// `shakmaty` crate reads it: for each of the 64 squares, from a1 along the
/// first rank and then rank by rank up to h8, the letter of the piece on it.
/// `None` where `fen` is not valid notation or describes no legal position
/// of standard chess.
pub uninterp spec fn fen_placement(fen: Seq<char>) -> Option<Seq<Option<char>>>;

/// The squares of a board, each with what stands on it.
pub struct Board {
    squares: Vec<Option<Piece>>,
}

impl View for Board {
    type V = Seq<Option<Piece>>;

    closed spec fn view(&self) -> Seq<Option<Piece>> {
        self.squares@
    }
}

impl Board {
    /// A board has 64 squares.
    pub open spec fn wf(&self) -> bool {
        self@.len() == 64
    }

    /// The piece on the square at `rank` and `file`, both counted from zero.
    pub fn piece_at(&self, rank: usize, file: usize) -> (piece: Option<Piece>)
        requires
            self.wf(),
            rank < 8,
            file < 8,
        ensures
            piece == self@[rank * 8 + file],
    {
        self.squares[rank * 8 + file]
    }
}

/// The pieces that the letters of a placement stand for.
pub open spec fn occupants(placement: Seq<Option<char>>) -> Seq<Option<Piece>> {
    Seq::new(placement.len(), |i: int| occupant(placement[i]))
}

/// The board of the position that `fen` describes, if it describes one.
pub open spec fn board_of(fen: Seq<char>) -> Option<Seq<Option<Piece>>> {
    match fen_placement(fen) {
        Some(placement) => Some(occupants(placement)),
        None => None,
    }
}

/// The diagram of the position that `fen` describes, if it describes one.
pub open spec fn diagram_of(fen: Seq<char>) -> Option<Seq<char>> {
    match board_of(fen) {
        Some(squares) => Some(diagram_markup(squares)),
        None => None,
    }
}

/// Calls `Fen::from_ascii` and `Fen::into_position` of the `shakmaty` crate
/// for standard chess, and reads the piece on each square of `Square::ALL`
/// with `Board::piece_at` and `Piece::char`.
///
/// Trusted: the result depends on the notation alone; where the notation is
/// accepted, there is one entry for each of the 64 squares.
#[verifier::external_body]
fn read_placement(fen: &str) -> (r: Option<Vec<Option<char>>>)
    ensures
        match r {
            Some(placement) => fen_placement(fen@) == Some(placement@) && placement@.len() == 64,
            None => fen_placement(fen@) is None,
        },
{
    let setup = Fen::from_ascii(fen.as_bytes()).ok()?;
    let position: Chess = setup.into_position(CastlingMode::Standard).ok()?;
    Some(Square::ALL.iter().map(|sq| position.board().piece_at(*sq).map(|p| p.char())).collect())
}

/// The piece that a letter of the notation stands for.
pub fn piece_from_symbol(symbol: char) -> (piece: Option<Piece>)
    ensures
        piece == piece_of(symbol),
{
    if symbol == 'K' {
        Some(Piece { color: Color::White, role: Role::King })
    } else if symbol == 'Q' {
        Some(Piece { color: Color::White, role: Role::Queen })
    } else if symbol == 'R' {
        Some(Piece { color: Color::White, role: Role::Rook })
    } else if symbol == 'B' {
        Some(Piece { color: Color::White, role: Role::Bishop })
    } else if symbol == 'N' {
        Some(Piece { color: Color::White, role: Role::Knight })
    } else if symbol == 'P' {
        Some(Piece { color: Color::White, role: Role::Pawn })
    } else if symbol == 'k' {
        Some(Piece { color: Color::Black, role: Role::King })
    } else if symbol == 'q' {
        Some(Piece { color: Color::Black, role: Role::Queen })
    } else if symbol == 'r' {
        Some(Piece { color: Color::Black, role: Role::Rook })
    } else if symbol == 'b' {
        Some(Piece { color: Color::Black, role: Role::Bishop })
    } else if symbol == 'n' {
        Some(Piece { color: Color::Black, role: Role::Knight })
    } else if symbol == 'p' {
        Some(Piece { color: Color::Black, role: Role::Pawn })
    } else {
        None
    }
}

/// Builds a board from the letters on its squares, given from a1 along the
/// first rank and then rank by rank up to h8. Returns `None` unless there
/// are 64 of them.
pub fn board_from_placement(placement: &Vec<Option<char>>) -> (board: Option<Board>)
    ensures
        board is Some <==> placement@.len() == 64,
        board matches Some(b) ==> b.wf() && b@ == occupants(placement@),
{
    if placement.len() != 64 {
        return None;
    }
    let mut squares: Vec<Option<Piece>> = Vec::new();
    let mut i: usize = 0;
    while i < placement.len()
        invariant
            i <= placement.len(),
            squares@ == occupants(placement@).take(i as int),
        decreases placement.len() - i,
    {
        let piece = match placement[i] {
            Some(c) => piece_from_symbol(c),
            None => None,
        };
        squares.push(piece);
        i += 1;
        assert(squares@ =~= occupants(placement@).take(i as int));
    }
    assert(occupants(placement@).take(64) =~= occupants(placement@));
    Some(Board { squares })
}

/// Reads a position in Forsyth-Edwards notation. Returns `None` where the
/// text is not valid notation or describes no legal position.
pub fn parse_fen(fen: &str) -> (board: Option<Board>)
    ensures
        match board {
            Some(b) => b.wf() && board_of(fen@) == Some(b@),
            None => board_of(fen@) is None,
        },
{
    match read_placement(fen) {
        Some(placement) => board_from_placement(&placement),
        None => None,
    }
}

/// The figure that is printed for a piece.
pub fn get_unicode(color: Color, role: Role) -> (figure: String)
    ensures
        figure@ == glyph(color, role),
{
    match (color, role) {
        (Color::White, Role::King) => "\u{2654}".to_owned(),
        (Color::White, Role::Queen) => "\u{2655}".to_owned(),
        (Color::White, Role::Rook) => "\u{2656}".to_owned(),
        (Color::White, Role::Bishop) => "\u{2657}".to_owned(),
        (Color::White, Role::Knight) => "\u{2658}".to_owned(),
        (Color::White, Role::Pawn) => "\u{2659}".to_owned(),
        (Color::Black, Role::King) => "\u{265a}".to_owned(),
        (Color::Black, Role::Queen) => "\u{265b}".to_owned(),
        (Color::Black, Role::Rook) => "\u{265c}".to_owned(),
        (Color::Black, Role::Bishop) => "\u{265d}".to_owned(),
        (Color::Black, Role::Knight) => "\u{265e}".to_owned(),
        (Color::Black, Role::Pawn) => "\u{265f}".to_owned(),
    }
}

fn push_square(out: &mut String, board: &Board, rank: usize, file: usize)
    requires
        board.wf(),
        rank < 8,
        file < 8,
    ensures
        final(out)@ == old(out)@ + square_markup(board@, rank as int, file as int),
{
    out.append("<td class=\"");
    if (rank + file) % 2 == 0 {
        out.append("light");
    } else {
        out.append("dark");
    }
    out.append("\">");
    match board.piece_at(rank, file) {
        Some(piece) => {
            let figure = get_unicode(piece.color, piece.role);
            out.append(figure.as_str());
        },
        None => {
            out.append("&nbsp;");
        },
    }
    out.append("</td>");
    assert(out@ =~= old(out)@ + square_markup(board@, rank as int, file as int));
}

fn push_rank(out: &mut String, board: &Board, rank: usize)
    requires
        board.wf(),
        rank < 8,
    ensures
        final(out)@ == old(out)@ + rank_markup(board@, rank as int),
{
    out.append("<tr>");
    let ghost opened = out@;
    let mut file: usize = 0;
    assert(out@ =~= opened + files_markup(board@, rank as int, 0));
    while file < 8
        invariant
            file <= 8,
            rank < 8,
            board.wf(),
            out@ == opened + files_markup(board@, rank as int, file as int),
        decreases 8 - file,
    {
        push_square(out, board, rank, file);
        file += 1;
        assert(out@ =~= opened + files_markup(board@, rank as int, file as int));
    }
    out.append("</tr>");
    assert(out@ =~= old(out)@ + rank_markup(board@, rank as int));
}

/// Draws a board as a table, the eighth rank on top.
pub fn fen_to_html(board: &Board) -> (html: String)
    requires
        board.wf(),
    ensures
        html@ == diagram_markup(board@),
{
    let mut html = "<table class=\"chess-board\"><tbody>".to_owned();
    let ghost opened = html@;
    let mut rank: usize = 8;
    assert(html@ =~= opened + ranks_markup(board@, 8));
    while rank > 0
        invariant
            rank <= 8,
            board.wf(),
            html@ == opened + ranks_markup(board@, rank as int),
        decreases rank,
    {
        rank -= 1;
        push_rank(&mut html, board, rank);
        assert(html@ =~= opened + ranks_markup(board@, rank as int));
    }
    html.append("</tbody></table>");
    assert(html@ =~= diagram_markup(board@));
    html
}

/// Draws the position that `fen` describes, if it describes one.
pub fn render_fen(fen: &str) -> (html: Option<String>)
    ensures
        crate::model::opt_text(html) == diagram_of(fen@),
{
    match parse_fen(fen) {
        Some(board) => Some(fen_to_html(&board)),
        None => None,
    }
}

} // verus!
