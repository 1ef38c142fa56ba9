//! Boards from textual layouts: one string for each rank, the squares of a
//! rank separated by blanks.
//!
//! A square is written `.` if it is empty, else as the letter of a piece:
//! `K R B G S N L P` for the shogi kinds, `K Q R B N P` for the chess kinds,
//! read as shogi or chess by what the owner plays. Two letters that begin
//! with `c` always name a chess kind: `cp ck cq cr cb cn`. A word that begins
//! with a capital letter is a piece of the first player, any other a piece of
//! the second. Blanks and letters are those of ASCII.

use vstd::prelude::*;
use vstd::string::*;
use super::board::{lemma_changes_keep_wf, Board, BoardRecord, BoardView, MAX_SIDE};
use super::piece::{Piece, PieceKind};
use super::types::{PlayerConfig, PlayerId, Position};

verus! {

/// Whether a character separates words.
pub open spec fn is_blank(c: char) -> bool {
    c == ' ' || c == '\t' || c == '\n' || c == '\r' || c == '\x0b' || c == '\x0c'
}

/// The words that end within the first `n` characters of a text, and the
/// part of a word that is open after them.
pub open spec fn scanned(s: Seq<char>, n: nat) -> (Seq<Seq<char>>, Seq<char>)
    decreases n,
{
    if n == 0 {
        (Seq::empty(), Seq::empty())
    } else {
        let (done, open) = scanned(s, (n - 1) as nat);
        let c = s[n - 1];
        if is_blank(c) {
            if open.len() > 0 {
                (done.push(open), Seq::empty())
            } else {
                (done, Seq::empty())
            }
        } else {
            (done, open.push(c))
        }
    }
}

/// The words of a text: its longest runs of characters that are not blanks,
/// in their order.
pub open spec fn words(s: Seq<char>) -> Seq<Seq<char>> {
    let (done, open) = scanned(s, s.len());
    if open.len() > 0 {
        done.push(open)
    } else {
        done
    }
}

/// The texts of a list of strings.
pub open spec fn texts_of(rows: Seq<&str>) -> Seq<Seq<char>> {
    Seq::new(rows.len(), |i: int| rows[i]@)
}

/// The chess kind that a word of two letters names, if it names one: `c`
/// and the letter of the kind, in either case.
pub open spec fn chess_word(t: Seq<char>) -> Option<PieceKind> {
    if t.len() == 2 && (t[0] == 'c' || t[0] == 'C') {
        if t[1] == 'p' || t[1] == 'P' {
            Some(PieceKind::C_Pawn)
        } else if t[1] == 'k' || t[1] == 'K' {
            Some(PieceKind::C_King)
        } else if t[1] == 'q' || t[1] == 'Q' {
            Some(PieceKind::C_Queen)
        } else if t[1] == 'r' || t[1] == 'R' {
            Some(PieceKind::C_Rook)
        } else if t[1] == 'b' || t[1] == 'B' {
            Some(PieceKind::C_Bishop)
        } else if t[1] == 'n' || t[1] == 'N' {
            Some(PieceKind::C_Knight)
        } else {
            None
        }
    } else {
        None
    }
}

/// The kind that a single letter names, in either case, for a side that
/// plays shogi or chess.
pub open spec fn letter_kind(c: char, shogi: bool) -> Option<PieceKind> {
    if shogi {
        if c == 'K' || c == 'k' {
            Some(PieceKind::S_King)
        } else if c == 'R' || c == 'r' {
            Some(PieceKind::S_Rook)
        } else if c == 'B' || c == 'b' {
            Some(PieceKind::S_Bishop)
        } else if c == 'G' || c == 'g' {
            Some(PieceKind::S_Gold)
        } else if c == 'S' || c == 's' {
            Some(PieceKind::S_Silver)
        } else if c == 'N' || c == 'n' {
            Some(PieceKind::S_Knight)
        } else if c == 'L' || c == 'l' {
            Some(PieceKind::S_Lance)
        } else if c == 'P' || c == 'p' {
            Some(PieceKind::S_Pawn)
        } else {
            None
        }
    } else {
        if c == 'K' || c == 'k' {
            Some(PieceKind::C_King)
        } else if c == 'Q' || c == 'q' {
            Some(PieceKind::C_Queen)
        } else if c == 'R' || c == 'r' {
            Some(PieceKind::C_Rook)
        } else if c == 'B' || c == 'b' {
            Some(PieceKind::C_Bishop)
        } else if c == 'N' || c == 'n' {
            Some(PieceKind::C_Knight)
        } else if c == 'P' || c == 'p' {
            Some(PieceKind::C_Pawn)
        } else {
            None
        }
    }
}

/// The kind that a word names: the chess kind of a two-letter word, else
/// what its first letter names for the side.
pub open spec fn word_kind(t: Seq<char>, shogi: bool) -> Option<PieceKind>
    recommends
        t.len() > 0,
{
    match chess_word(t) {
        Some(k) => Some(k),
        None => letter_kind(t[0], shogi),
    }
}

/// Whether a character is a capital letter of ASCII.
pub open spec fn is_capital(c: char) -> bool {
    'A' <= c && c <= 'Z'
}

/// The owner of the piece that a word names.
pub open spec fn word_owner(t: Seq<char>) -> PlayerId
    recommends
        t.len() > 0,
{
    if is_capital(t[0]) {
        PlayerId::Player1
    } else {
        PlayerId::Player2
    }
}

/// The position after the word `t` was read for square (`x`, `y`): a word
/// that names a kind puts a piece there, `.` and any other word nothing.
pub open spec fn with_word(
    v: BoardView,
    t: Seq<char>,
    x: nat,
    y: nat,
    p1_shogi: bool,
    p2_shogi: bool,
) -> BoardView {
    if t =~= seq!['.'] {
        v
    } else {
        let owner = word_owner(t);
        let shogi = match owner {
            PlayerId::Player1 => p1_shogi,
            PlayerId::Player2 => p2_shogi,
        };
        match word_kind(t, shogi) {
            Some(k) => v.place(Position { x: x as usize, y: y as usize }, Piece::of(k, owner)),
            None => v,
        }
    }
}

/// The position after the first `n` words of rank `y` were read.
pub open spec fn with_row(
    v: BoardView,
    row: Seq<Seq<char>>,
    y: nat,
    n: nat,
    p1_shogi: bool,
    p2_shogi: bool,
) -> BoardView
    decreases n,
{
    if n == 0 {
        v
    } else {
        with_word(
            with_row(v, row, y, (n - 1) as nat, p1_shogi, p2_shogi),
            row[n - 1],
            (n - 1) as nat,
            y,
            p1_shogi,
            p2_shogi,
        )
    }
}

/// The position after the first `n` ranks were read.
pub open spec fn with_rows(
    v: BoardView,
    rows: Seq<Seq<char>>,
    n: nat,
    p1_shogi: bool,
    p2_shogi: bool,
) -> BoardView
    decreases n,
{
    if n == 0 {
        v
    } else {
        let above = with_rows(v, rows, (n - 1) as nat, p1_shogi, p2_shogi);
        let row = words(rows[n - 1]);
        with_row(above, row, (n - 1) as nat, row.len(), p1_shogi, p2_shogi)
    }
}

/// The capabilities of a side that plays shogi, or chess.
pub open spec fn config_for(shogi: bool) -> PlayerConfig {
    if shogi {
        PlayerConfig::shogi_spec()
    } else {
        PlayerConfig::chess_spec()
    }
}

/// The number of files of a layout: the number of words of its first rank.
pub open spec fn layout_width(rows: Seq<Seq<char>>) -> nat {
    if rows.len() > 0 {
        words(rows[0]).len()
    } else {
        0
    }
}

/// The position that a layout describes: as many ranks as it has rows, as
/// many files as its first row has words, both sides set up for shogi or
/// chess as asked, and the pieces that the words name. Words beyond the last
/// file are ignored.
pub open spec fn layout_position(rows: Seq<Seq<char>>, p1_shogi: bool, p2_shogi: bool) -> BoardView {
    let start = BoardView::empty(layout_width(rows), rows.len()).configure(
        PlayerId::Player1,
        config_for(p1_shogi),
    ).configure(PlayerId::Player2, config_for(p2_shogi));
    with_rows(start, rows, rows.len(), p1_shogi, p2_shogi)
}

/// Whether a character separates words.
pub fn is_blank_char(c: char) -> (b: bool)
    ensures
        b == is_blank(c),
{
    c == ' ' || c == '\t' || c == '\n' || c == '\r' || c == '\x0b' || c == '\x0c'
}

/// The words of a text.
pub fn split_words(s: &str) -> (r: Vec<&str>)
    ensures
        texts_of(r@) == words(s@),
        forall|i: int| 0 <= i < r@.len() ==> (#[trigger] r@[i])@.len() > 0,
{
    let n = s.unicode_len();
    let mut r: Vec<&str> = Vec::new();
    let mut start: usize = 0;
    let mut open: bool = false;
    let mut i: usize = 0;
    proof {
        assert(texts_of(r@) =~= scanned(s@, 0).0);
    }
    while i < n
        invariant
            n == s@.len(),
            i <= n,
            start <= i,
            texts_of(r@) == scanned(s@, i as nat).0,
            open ==> start < i && scanned(s@, i as nat).1 == s@.subrange(start as int, i as int),
            !open ==> scanned(s@, i as nat).1.len() == 0,
            forall|j: int| 0 <= j < r@.len() ==> (#[trigger] r@[j])@.len() > 0,
        decreases n - i,
    {
        let c = s.get_char(i);
        let ghost before = texts_of(r@);
        if is_blank_char(c) {
            if open {
                let w = s.substring_char(start, i);
                r.push(w);
                open = false;
                proof {
                    assert(texts_of(r@) =~= before.push(w@));
                }
            }
        } else {
            if !open {
                start = i;
                open = true;
                proof {
                    assert(scanned(s@, i as nat).1 =~= Seq::<char>::empty());
                    assert(Seq::<char>::empty().push(c) =~= s@.subrange(i as int, i + 1));
                }
            } else {
                proof {
                    assert(s@.subrange(start as int, i as int).push(c) =~= s@.subrange(
                        start as int,
                        i + 1,
                    ));
                }
            }
        }
        i += 1;
    }
    if open {
        let ghost before = texts_of(r@);
        let w = s.substring_char(start, n);
        r.push(w);
        proof {
            assert(texts_of(r@) =~= before.push(w@));
        }
    }
    r
}

/// The kind that a word names for a side that plays shogi, or chess.
pub fn parse_piece_kind(s: &str, is_shogi_hint: bool) -> (r: Option<PieceKind>)
    requires
        s@.len() > 0,
    ensures
        r == word_kind(s@, is_shogi_hint),
{
    let n = s.unicode_len();
    let first = s.get_char(0);
    if n == 2 && (first == 'c' || first == 'C') {
        let second = s.get_char(1);
        if second == 'p' || second == 'P' {
            return Some(PieceKind::C_Pawn);
        } else if second == 'k' || second == 'K' {
            return Some(PieceKind::C_King);
        } else if second == 'q' || second == 'Q' {
            return Some(PieceKind::C_Queen);
        } else if second == 'r' || second == 'R' {
            return Some(PieceKind::C_Rook);
        } else if second == 'b' || second == 'B' {
            return Some(PieceKind::C_Bishop);
        } else if second == 'n' || second == 'N' {
            return Some(PieceKind::C_Knight);
        }
    }
    let ch = first;
    if is_shogi_hint {
        if ch == 'K' || ch == 'k' {
            Some(PieceKind::S_King)
        } else if ch == 'R' || ch == 'r' {
            Some(PieceKind::S_Rook)
        } else if ch == 'B' || ch == 'b' {
            Some(PieceKind::S_Bishop)
        } else if ch == 'G' || ch == 'g' {
            Some(PieceKind::S_Gold)
        } else if ch == 'S' || ch == 's' {
            Some(PieceKind::S_Silver)
        } else if ch == 'N' || ch == 'n' {
            Some(PieceKind::S_Knight)
        } else if ch == 'L' || ch == 'l' {
            Some(PieceKind::S_Lance)
        } else if ch == 'P' || ch == 'p' {
            Some(PieceKind::S_Pawn)
        } else {
            None
        }
    } else {
        if ch == 'K' || ch == 'k' {
            Some(PieceKind::C_King)
        } else if ch == 'Q' || ch == 'q' {
            Some(PieceKind::C_Queen)
        } else if ch == 'R' || ch == 'r' {
            Some(PieceKind::C_Rook)
        } else if ch == 'B' || ch == 'b' {
            Some(PieceKind::C_Bishop)
        } else if ch == 'N' || ch == 'n' {
            Some(PieceKind::C_Knight)
        } else if ch == 'P' || ch == 'p' {
            Some(PieceKind::C_Pawn)
        } else {
            None
        }
    }
}

/// Reads one word for square (`x`, `y`).
fn place_word(board: &mut Board, word: &str, x: usize, y: usize, p1_shogi: bool, p2_shogi: bool)
    requires
        old(board).wf(),
        word@.len() > 0,
    ensures
        final(board).wf(),
        final(board)@ == with_word(old(board)@, word@, x as nat, y as nat, p1_shogi, p2_shogi),
        final(board).same_record(old(board)),
{
    let n = word.unicode_len();
    let first = word.get_char(0);
    if n == 1 && first == '.' {
        proof {
            assert(word@ =~= seq!['.']);
        }
        return ;
    }
    proof {
        assert(!(word@ =~= seq!['.'])) by {
            if word@ =~= seq!['.'] {
                assert(word@.len() == 1);
                assert(word@[0] == '.');
            }
        }
    }
    let owner = if 'A' <= first && first <= 'Z' {
        PlayerId::Player1
    } else {
        PlayerId::Player2
    };
    let is_shogi_hint = match owner {
        PlayerId::Player1 => p1_shogi,
        PlayerId::Player2 => p2_shogi,
    };
    if let Some(k) = parse_piece_kind(word, is_shogi_hint) {
        board.place_piece(Position::new(x, y), Piece::new(k, owner));
    }
}

/// The board that a layout describes, if it is no larger than 9 by 9.
pub fn setup_from_strings(setup: &[&str], p1_shogi: bool, p2_shogi: bool) -> (r: Option<Board>)
    ensures
        r is Some <==> setup@.len() <= MAX_SIDE && layout_width(texts_of(setup@)) <= MAX_SIDE,
        r matches Some(b) ==> b.wf() && b@ == layout_position(texts_of(setup@), p1_shogi, p2_shogi)
            && b.record() == (BoardRecord {
            last_move: None,
            zobrist_hash: 0,
            history: Seq::<u64>::empty(),
        }),
{
    let height = setup.len();
    let width = if height > 0 {
        split_words(setup[0]).len()
    } else {
        0
    };
    proof {
        if height > 0 {
            assert(texts_of(setup@)[0] == setup@[0]@);
        }
        assert(width == layout_width(texts_of(setup@)));
    }
    if height > MAX_SIDE || width > MAX_SIDE {
        return None;
    }
    let mut board = Board::new(width, height);
    board.set_player_config(
        PlayerId::Player1,
        if p1_shogi {
            PlayerConfig::shogi()
        } else {
            PlayerConfig::chess()
        },
    );
    board.set_player_config(
        PlayerId::Player2,
        if p2_shogi {
            PlayerConfig::shogi()
        } else {
            PlayerConfig::chess()
        },
    );
    let ghost rows = texts_of(setup@);
    let ghost start = board@;
    let mut y: usize = 0;
    while y < height
        invariant
            board.wf(),
            height == setup@.len(),
            rows == texts_of(setup@),
            y <= height,
            board@ == with_rows(start, rows, y as nat, p1_shogi, p2_shogi),
            board.record() == (BoardRecord {
                last_move: None,
                zobrist_hash: 0,
                history: Seq::<u64>::empty(),
            }),
        decreases height - y,
    {
        let row = split_words(setup[y]);
        let ghost above = board@;
        proof {
            assert(rows[y as int] == setup@[y as int]@);
            assert(texts_of(row@) == words(rows[y as int]));
        }
        let mut x: usize = 0;
        while x < row.len()
            invariant
                board.wf(),
                x <= row@.len(),
                y < height,
                forall|i: int| 0 <= i < row@.len() ==> (#[trigger] row@[i])@.len() > 0,
                board@ == with_row(above, texts_of(row@), y as nat, x as nat, p1_shogi, p2_shogi),
                board.record() == (BoardRecord {
                    last_move: None,
                    zobrist_hash: 0,
                    history: Seq::<u64>::empty(),
                }),
            decreases row@.len() - x,
        {
            proof {
                assert(texts_of(row@)[x as int] == row@[x as int]@);
            }
            place_word(&mut board, row[x], x, y, p1_shogi, p2_shogi);
            x += 1;
        }
        y += 1;
    }
    Some(board)
}

/// A shogi army for the first player below, a chess army for the second above.
pub open spec fn standard_mixed_rows() -> Seq<&'static str> {
    seq![
        "cr cn cb cq ck cq cb cn cr",
        "cp cp cp cp cp cp cp cp cp",
        ". . . . . . . . .",
        ". . . . . . . . .",
        ". . . . . . . . .",
        ". . . . . . . . .",
        "P P P P P P P P P",
        ". B . . . . . R .",
        "L N S G K G S N L",
    ]
}

/// The layout `standard_mixed_rows`.
pub fn get_standard_mixed_setup() -> (rows: Vec<&'static str>)
    ensures
        rows@ == standard_mixed_rows(),
{
    let rows = vec![
        "cr cn cb cq ck cq cb cn cr",
        "cp cp cp cp cp cp cp cp cp",
        ". . . . . . . . .",
        ". . . . . . . . .",
        ". . . . . . . . .",
        ". . . . . . . . .",
        "P P P P P P P P P",
        ". B . . . . . R .",
        "L N S G K G S N L",
    ];
    assert(rows@ =~= standard_mixed_rows());
    rows
}

/// A chess army for the first player below, a shogi army for the second
/// above, on eight ranks.
pub open spec fn reversed_mixed_rows() -> Seq<&'static str> {
    seq![
        "l n s g k g s n l",
        ". r . . . . . b .",
        "p p p p p p p p p",
        ". . . . . . . . .",
        ". . . . . . . . .",
        ". . . . . . . . .",
        "CP CP CP CP CP CP CP CP CP",
        "CR CN CB CQ CK CQ CB CN CR",
    ]
}

/// The layout `reversed_mixed_rows`.
pub fn get_reversed_mixed_setup() -> (rows: Vec<&'static str>)
    ensures
        rows@ == reversed_mixed_rows(),
{
    let rows = vec![
        "l n s g k g s n l",
        ". r . . . . . b .",
        "p p p p p p p p p",
        ". . . . . . . . .",
        ". . . . . . . . .",
        ". . . . . . . . .",
        "CP CP CP CP CP CP CP CP CP",
        "CR CN CB CQ CK CQ CB CN CR",
    ];
    assert(rows@ =~= reversed_mixed_rows());
    rows
}

/// Two shogi armies.
pub open spec fn shogi_rows() -> Seq<&'static str> {
    seq![
        "l n s g k g s n l",
        ". r . . . . . b .",
        "p p p p p p p p p",
        ". . . . . . . . .",
        ". . . . . . . . .",
        ". . . . . . . . .",
        "P P P P P P P P P",
        ". B . . . . . R .",
        "L N S G K G S N L",
    ]
}

/// The layout `shogi_rows`.
pub fn get_shogi_setup() -> (rows: Vec<&'static str>)
    ensures
        rows@ == shogi_rows(),
{
    let rows = vec![
        "l n s g k g s n l",
        ". r . . . . . b .",
        "p p p p p p p p p",
        ". . . . . . . . .",
        ". . . . . . . . .",
        ". . . . . . . . .",
        "P P P P P P P P P",
        ". B . . . . . R .",
        "L N S G K G S N L",
    ];
    assert(rows@ =~= shogi_rows());
    rows
}

/// Two chess armies, on eight ranks.
pub open spec fn chess_rows() -> Seq<&'static str> {
    seq![
        "cr cn cb cq ck cq cb cn cr",
        "cp cp cp cp cp cp cp cp cp",
        ". . . . . . . . .",
        ". . . . . . . . .",
        ". . . . . . . . .",
        ". . . . . . . . .",
        "CP CP CP CP CP CP CP CP CP",
        "CR CN CB CQ CK CQ CB CN CR",
    ]
}

/// The layout `chess_rows`.
pub fn get_chess_setup() -> (rows: Vec<&'static str>)
    ensures
        rows@ == chess_rows(),
{
    let rows = vec![
        "cr cn cb cq ck cq cb cn cr",
        "cp cp cp cp cp cp cp cp cp",
        ". . . . . . . . .",
        ". . . . . . . . .",
        ". . . . . . . . .",
        ". . . . . . . . .",
        "CP CP CP CP CP CP CP CP CP",
        "CR CN CB CQ CK CQ CB CN CR",
    ];
    assert(rows@ =~= chess_rows());
    rows
}

/// Two armies that are shogi on the lower files and chess on the higher ones.
pub open spec fn fair_rows() -> Seq<&'static str> {
    seq![
        "l n s g k cq cb cn cr",
        ". r . . . . . cb .",
        "p p p p p cp cp cp cp",
        ". . . . . . . . .",
        ". . . . . . . . .",
        ". . . . . . . . .",
        "P P P P P CP CP CP CP",
        ". B . . . . . CR .",
        "L N S G K CR CN CB CQ",
    ]
}

/// The layout `fair_rows`.
pub fn get_fair_setup() -> (rows: Vec<&'static str>)
    ensures
        rows@ == fair_rows(),
{
    let rows = vec![
        "l n s g k cq cb cn cr",
        ". r . . . . . cb .",
        "p p p p p cp cp cp cp",
        ". . . . . . . . .",
        ". . . . . . . . .",
        ". . . . . . . . .",
        "P P P P P CP CP CP CP",
        ". B . . . . . CR .",
        "L N S G K CR CN CB CQ",
    ];
    assert(rows@ =~= fair_rows());
    rows
}

/// Two armies that are chess on the lower files and shogi on the higher ones.
pub open spec fn reversed_fair_rows() -> Seq<&'static str> {
    seq![
        "cr cn cb cq ck g s n l",
        ". cr . . . . . b .",
        "cp cp cp cp p p p p p",
        ". . . . . . . . .",
        ". . . . . . . . .",
        ". . . . . . . . .",
        "CP CP CP CP P P P P P",
        ". CB . . . . . R .",
        "CR CN CB CQ K G S N L",
    ]
}

/// The layout `reversed_fair_rows`.
pub fn get_reversed_fair_setup() -> (rows: Vec<&'static str>)
    ensures
        rows@ == reversed_fair_rows(),
{
    let rows = vec![
        "cr cn cb cq ck g s n l",
        ". cr . . . . . b .",
        "cp cp cp cp p p p p p",
        ". . . . . . . . .",
        ". . . . . . . . .",
        ". . . . . . . . .",
        "CP CP CP CP P P P P P",
        ". CB . . . . . R .",
        "CR CN CB CQ K G S N L",
    ];
    assert(rows@ =~= reversed_fair_rows());
    rows
}

/// A row of nine chess pieces has nine words.
proof fn lemma_chess_row_has_nine_words()
    ensures
        words("cr cn cb cq ck cq cb cn cr"@).len() == 9,
{
    reveal_strlit("cr cn cb cq ck cq cb cn cr");
    reveal_with_fuel(scanned, 30);
}

/// A row of nine shogi pieces has nine words.
proof fn lemma_shogi_row_has_nine_words()
    ensures
        words("l n s g k g s n l"@).len() == 9,
{
    reveal_strlit("l n s g k g s n l");
    reveal_with_fuel(scanned, 20);
}

/// The first row of the fair layout has nine words.
proof fn lemma_fair_row_has_nine_words()
    ensures
        words("l n s g k cq cb cn cr"@).len() == 9,
{
    reveal_strlit("l n s g k cq cb cn cr");
    reveal_with_fuel(scanned, 24);
}

/// The first row of the reversed fair layout has nine words.
proof fn lemma_reversed_fair_row_has_nine_words()
    ensures
        words("cr cn cb cq ck g s n l"@).len() == 9,
{
    reveal_strlit("cr cn cb cq ck g s n l");
    reveal_with_fuel(scanned, 24);
}

/// The layouts of this library fit on a board: each has nine files and
/// eight or nine ranks.
pub proof fn lemma_layouts_fit()
    ensures
        layout_width(texts_of(standard_mixed_rows())) == 9 && standard_mixed_rows().len() == 9,
        layout_width(texts_of(reversed_mixed_rows())) == 9 && reversed_mixed_rows().len() == 8,
        layout_width(texts_of(shogi_rows())) == 9 && shogi_rows().len() == 9,
        layout_width(texts_of(chess_rows())) == 9 && chess_rows().len() == 8,
        layout_width(texts_of(fair_rows())) == 9 && fair_rows().len() == 9,
        layout_width(texts_of(reversed_fair_rows())) == 9 && reversed_fair_rows().len() == 9,
{
    lemma_chess_row_has_nine_words();
    lemma_shogi_row_has_nine_words();
    lemma_fair_row_has_nine_words();
    lemma_reversed_fair_row_has_nine_words();
    assert(texts_of(standard_mixed_rows())[0] == "cr cn cb cq ck cq cb cn cr"@);
    assert(texts_of(reversed_mixed_rows())[0] == "l n s g k g s n l"@);
    assert(texts_of(shogi_rows())[0] == "l n s g k g s n l"@);
    assert(texts_of(chess_rows())[0] == "cr cn cb cq ck cq cb cn cr"@);
    assert(texts_of(fair_rows())[0] == "l n s g k cq cb cn cr"@);
    assert(texts_of(reversed_fair_rows())[0] == "cr cn cb cq ck g s n l"@);
}

} // verus!
