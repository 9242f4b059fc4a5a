use vstd::prelude::*;

verus! {

/// Whether `c` counts as white space between the words of a command.
pub uninterp spec fn whitespace(c: char) -> bool;

/// Relies on `char::is_whitespace`: the Unicode White_Space property, which holds of
/// the space, the tab, the line feed and the carriage return.
#[verifier::external_body]
fn is_space(c: char) -> (r: bool)
    ensures
        r == whitespace(c),
        c == ' ' || c == '\t' || c == '\n' || c == '\r' ==> r,
{
    c.is_whitespace()
}

/// The words of `s` after the partial word `cur`: maximal runs of characters that
/// are not white space, in order.
pub open spec fn words_after(s: Seq<char>, cur: Seq<char>) -> Seq<Seq<char>>
    decreases s.len(),
{
    if s.len() == 0 {
        if cur.len() == 0 {
            seq![]
        } else {
            seq![cur]
        }
    } else if whitespace(s[0]) {
        if cur.len() == 0 {
            words_after(s.drop_first(), cur)
        } else {
            seq![cur] + words_after(s.drop_first(), seq![])
        }
    } else {
        words_after(s.drop_first(), cur.push(s[0]))
    }
}

/// The words of `s`, split on runs of white space.
pub open spec fn words(s: Seq<char>) -> Seq<Seq<char>> {
    words_after(s, seq![])
}

/// The views of a vector of strings.
pub open spec fn texts(v: Seq<String>) -> Seq<Seq<char>> {
    v.map_values(|t: String| t@)
}

/// Splits `line` into its words.
pub fn split_words(line: &str) -> (r: Vec<String>)
    ensures
        texts(r@) == words(line@),
{
    let len = line.unicode_len();
    let ghost s = line@;
    let mut out: Vec<String> = Vec::new();
    let mut start: usize = 0;
    let mut i: usize = 0;
    proof {
        assert(s.subrange(0, len as int) =~= s);
        assert(s.subrange(0, 0) =~= Seq::<char>::empty());
        assert(texts(out@) + words(s) =~= words(s));
    }
    while i < len
        invariant
            len == s.len(),
            s == line@,
            start <= i <= len,
            words(s) == texts(out@) + words_after(s.subrange(i as int, len as int), s.subrange(start as int, i as int)),
        decreases len - i,
    {
        let c = line.get_char(i);
        let ghost rest = s.subrange(i as int, len as int);
        let ghost cur = s.subrange(start as int, i as int);
        proof {
            assert(rest[0] == c);
            assert(rest.drop_first() =~= s.subrange(i + 1, len as int));
        }
        let ghost next = s.subrange(i + 1, len as int);
        if is_space(c) {
            if start < i {
                let w = line.substring_char(start, i).to_owned();
                proof {
                    assert(words_after(rest, cur) == seq![cur] + words_after(next, seq![]));
                    assert(texts(out@.push(w)) =~= texts(out@) + seq![cur]);
                    assert(texts(out@) + (seq![cur] + words_after(next, seq![])) =~= (texts(out@)
                        + seq![cur]) + words_after(next, seq![]));
                }
                out.push(w);
            } else {
                proof {
                    assert(cur =~= Seq::<char>::empty());
                    assert(words_after(rest, cur) == words_after(next, cur));
                }
            }
            start = i + 1;
            proof {
                assert(s.subrange(start as int, (i + 1) as int) =~= Seq::<char>::empty());
            }
        } else {
            proof {
                assert(cur.push(c) =~= s.subrange(start as int, i + 1));
                assert(words_after(rest, cur) == words_after(next, cur.push(c)));
            }
        }
        i = i + 1;
    }
    proof {
        assert(s.subrange(len as int, len as int) =~= Seq::<char>::empty());
    }
    if start < len {
        let w = line.substring_char(start, len).to_owned();
        proof {
            assert(texts(out@.push(w)) =~= texts(out@) + seq![s.subrange(start as int, len as int)]);
        }
        out.push(w);
    } else {
        proof {
            assert(texts(out@) + seq![] =~= texts(out@));
        }
    }
    out
}

/// One displayed row: each cell followed by a tab.
pub open spec fn row_text(row: Seq<Seq<char>>) -> Seq<char>
    decreases row.len(),
{
    if row.len() == 0 {
        seq![]
    } else {
        row_text(row.drop_last()) + row.last() + seq!['\t']
    }
}

/// A displayed grid: each row followed by a line feed.
pub open spec fn grid_text(g: Seq<Seq<Seq<char>>>) -> Seq<char>
    decreases g.len(),
{
    if g.len() == 0 {
        seq![]
    } else {
        grid_text(g.drop_last()) + row_text(g.last()) + seq!['\n']
    }
}

/// The views of a grid of strings.
pub open spec fn cell_texts(cells: Seq<Vec<String>>) -> Seq<Seq<Seq<char>>> {
    cells.map_values(|r: Vec<String>| texts(r@))
}

/// Lays out already rendered cells, one line per row, with a tab after each cell.
pub fn render_grid(cells: &Vec<Vec<String>>) -> (r: String)
    ensures
        r@ == grid_text(cell_texts(cells@)),
{
    let ghost g = cell_texts(cells@);
    let mut out = String::new();
    let mut i: usize = 0;
    proof {
        assert(g.subrange(0, 0) =~= Seq::<Seq<Seq<char>>>::empty());
    }
    while i < cells.len()
        invariant
            g == cell_texts(cells@),
            i <= cells@.len(),
            out@ == grid_text(g.subrange(0, i as int)),
        decreases cells.len() - i,
    {
        let row = &cells[i];
        let ghost base = out@;
        let ghost rt = texts(row@);
        let mut j: usize = 0;
        proof {
            assert(rt.subrange(0, 0) =~= Seq::<Seq<char>>::empty());
            assert(base + row_text(rt.subrange(0, 0)) =~= base);
        }
        while j < row.len()
            invariant
                rt == texts(row@),
                j <= row@.len(),
                out@ == base + row_text(rt.subrange(0, j as int)),
            decreases row.len() - j,
        {
            out.append(row[j].as_str());
            out.append("\t");
            proof {
                reveal_strlit("\t");
                let p = rt.subrange(0, j + 1);
                assert(p.drop_last() =~= rt.subrange(0, j as int));
                assert(p.last() == row@[j as int]@);
                assert(out@ =~= base + row_text(p));
            }
            j = j + 1;
        }
        out.append("\n");
        proof {
            reveal_strlit("\n");
            let p = g.subrange(0, i + 1);
            assert(p.drop_last() =~= g.subrange(0, i as int));
            assert(rt.subrange(0, rt.len() as int) =~= rt);
            assert(p.last() == rt);
            assert(out@ =~= grid_text(p));
        }
        i = i + 1;
    }
    proof {
        assert(g.subrange(0, g.len() as int) =~= g);
    }
    out
}

/// `label(name) = value`, the display of a scalar result.
pub fn scalar_line(label: &str, name: &str, value: &str) -> (r: String)
    ensures
        r@ == label@ + seq!['('] + name@ + seq![')', ' ', '=', ' '] + value@,
{
    let mut out = String::from_str(label);
    out.append("(");
    out.append(name);
    out.append(") = ");
    out.append(value);
    proof {
        reveal_strlit("(");
        reveal_strlit(") = ");
        assert(out@ =~= label@ + seq!['('] + name@ + seq![')', ' ', '=', ' '] + value@);
    }
    out
}

/// The items of `v`, each after the first preceded by a comma and a space.
pub open spec fn joined(v: Seq<Seq<char>>) -> Seq<char>
    decreases v.len(),
{
    if v.len() == 0 {
        seq![]
    } else if v.len() == 1 {
        v[0]
    } else {
        joined(v.drop_last()) + seq![',', ' '] + v.last()
    }
}

/// `eigenvalues of name: [v1, v2, ...]`.
pub fn eigenvalues_line(name: &str, values: &Vec<String>) -> (r: String)
    ensures
        r@ == "eigenvalues of "@ + name@ + seq![':', ' ', '['] + joined(texts(values@)) + seq![']'],
{
    let ghost vs = texts(values@);
    let mut out = String::from_str("eigenvalues of ");
    out.append(name);
    out.append(": [");
    let ghost base = out@;
    let mut i: usize = 0;
    proof {
        assert(vs.subrange(0, 0) =~= Seq::<Seq<char>>::empty());
        assert(base + joined(vs.subrange(0, 0)) =~= base);
    }
    while i < values.len()
        invariant
            vs == texts(values@),
            i <= values@.len(),
            out@ == base + joined(vs.subrange(0, i as int)),
        decreases values.len() - i,
    {
        if i > 0 {
            out.append(", ");
        }
        out.append(values[i].as_str());
        proof {
            reveal_strlit(", ");
            let p = vs.subrange(0, i + 1);
            assert(p.drop_last() =~= vs.subrange(0, i as int));
            assert(p.last() == values@[i as int]@);
            if i == 0 {
                assert(joined(p) == p[0]);
            }
            assert(out@ =~= base + joined(p));
        }
        i = i + 1;
    }
    out.append("]");
    proof {
        reveal_strlit("]");
        reveal_strlit(": [");
        assert(vs.subrange(0, vs.len() as int) =~= vs);
        assert(out@ =~= "eigenvalues of "@ + name@ + seq![':', ' ', '['] + joined(vs) + seq![']']);
    }
    out
}

/// `eigenvectors of name:` on one line, then the rendered matrix.
pub fn eigenvectors_text(name: &str, grid: &str) -> (r: String)
    ensures
        r@ == "eigenvectors of "@ + name@ + seq![':', '\n'] + grid@,
{
    let mut out = String::from_str("eigenvectors of ");
    out.append(name);
    out.append(":\n");
    out.append(grid);
    proof {
        reveal_strlit(":\n");
        assert(out@ =~= "eigenvectors of "@ + name@ + seq![':', '\n'] + grid@);
    }
    out
}

} // verus!
