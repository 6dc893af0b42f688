//! Text and directory-tree fixtures for tests.

use vstd::prelude::*;

verus! {

/// Relies on std's `String::push`: appends the character to the end of the
/// string.
pub assume_specification[ String::push ](s: &mut String, ch: char)
    ensures
        final(s)@ == old(s)@.push(ch),
;

/// Relies on std's `String::push_str`: appends the string slice to the end
/// of the string.
pub assume_specification[ String::push_str ](s: &mut String, other: &str)
    ensures
        final(s)@ == old(s)@ + other@,
;

/// One entry of a directory-tree fixture: a directory with named children, a
/// file with string contents, or an empty directory.
pub enum TreeEntry {
    Dir(Vec<(String, TreeEntry)>),
    File(String),
    EmptyDir,
}

/// One filesystem action of a materialization plan, with its path relative
/// to the root of the tree.
#[derive(Clone, Debug, PartialEq, Eq)]
pub enum FsOp {
    CreateDir { path: String },
    WriteFile { path: String, contents: String },
}

/// The mathematical reading of one filesystem action.
#[verifier::ext_equal]
pub ghost struct FsOpModel {
    pub is_dir: bool,
    pub path: Seq<char>,
    pub contents: Seq<char>,
}

impl View for FsOp {
    type V = FsOpModel;

    closed spec fn view(&self) -> FsOpModel {
        match self {
            FsOp::CreateDir { path } => FsOpModel {
                is_dir: true,
                path: path@,
                contents: Seq::empty(),
            },
            FsOp::WriteFile { path, contents } => FsOpModel {
                is_dir: false,
                path: path@,
                contents: contents@,
            },
        }
    }
}

/// The path of an entry named `name` under `prefix`: the name itself at the
/// root, else the prefix extended with a separator and the name.
pub open spec fn join_path(prefix: Seq<char>, name: Seq<char>) -> Seq<char> {
    if prefix.len() == 0 {
        name
    } else {
        prefix + seq!['/'] + name
    }
}

/// The actions that materialize `entry` at `path`: a file is written, an
/// empty directory is created, and a directory is created and then filled
/// with its children in order.
pub open spec fn entry_ops(path: Seq<char>, entry: TreeEntry) -> Seq<FsOpModel>
    decreases entry,
{
    match entry {
        TreeEntry::File(contents) => seq![
            FsOpModel { is_dir: false, path, contents: contents@ },
        ],
        TreeEntry::EmptyDir => seq![
            FsOpModel { is_dir: true, path, contents: Seq::empty() },
        ],
        TreeEntry::Dir(children) => seq![
            FsOpModel { is_dir: true, path, contents: Seq::empty() },
        ] + children_ops(path, children@),
    }
}

/// The actions that materialize `children` under `prefix`, in order.
pub open spec fn children_ops(prefix: Seq<char>, children: Seq<(String, TreeEntry)>) -> Seq<
    FsOpModel,
>
    decreases children,
{
    if children.len() == 0 {
        Seq::empty()
    } else {
        entry_ops(join_path(prefix, children[0].0@), children[0].1) + children_ops(
            prefix,
            children.subrange(1, children.len() as int),
        )
    }
}

proof fn lemma_children_ops_snoc(
    prefix: Seq<char>,
    children: Seq<(String, TreeEntry)>,
    x: (String, TreeEntry),
)
    ensures
        children_ops(prefix, children.push(x)) == children_ops(prefix, children) + entry_ops(
            join_path(prefix, x.0@),
            x.1,
        ),
    decreases children.len(),
{
    let s = children.push(x);
    if children.len() == 0 {
        assert(s[0] == x);
        assert(s.subrange(1, s.len() as int) =~= Seq::<(String, TreeEntry)>::empty());
        assert(children_ops(prefix, Seq::<(String, TreeEntry)>::empty())
            =~= Seq::<FsOpModel>::empty());
        assert(children_ops(prefix, s) =~= entry_ops(join_path(prefix, x.0@), x.1));
        assert(children_ops(prefix, children) + entry_ops(join_path(prefix, x.0@), x.1)
            =~= entry_ops(join_path(prefix, x.0@), x.1));
    } else {
        assert(s[0] == children[0]);
        assert(s.subrange(1, s.len() as int) =~= children.subrange(
            1,
            children.len() as int,
        ).push(x));
        lemma_children_ops_snoc(prefix, children.subrange(1, children.len() as int), x);
        assert(children_ops(prefix, s) =~= children_ops(prefix, children) + entry_ops(
            join_path(prefix, x.0@),
            x.1,
        ));
    }
}

impl TreeEntry {
    /// Build the path of a child named `name` under `prefix`.
    fn child_path(prefix: &String, name: &String) -> (r: String)
        ensures
            r@ == join_path(prefix@, name@),
    {
        if prefix.as_str().is_empty() {
            name.clone()
        } else {
            let mut p = prefix.clone();
            p.push('/');
            p.push_str(name.as_str());
            proof {
                assert(p@ =~= prefix@ + seq!['/'] + name@);
            }
            p
        }
    }

    /// Append the actions that materialize `entry` at `path` to `ops`.
    fn append_entry_ops(ops: &mut Vec<FsOp>, path: &String, entry: &TreeEntry)
        ensures
            final(ops)@.map_values(|op: FsOp| op@) == old(ops)@.map_values(|op: FsOp| op@)
                + entry_ops(path@, *entry),
        decreases *entry,
    {
        match entry {
            TreeEntry::File(contents) => {
                ops.push(FsOp::WriteFile { path: path.clone(), contents: contents.clone() });
                proof {
                    assert(ops@.map_values(|op: FsOp| op@) =~= old(ops)@.map_values(
                        |op: FsOp| op@,
                    ) + entry_ops(path@, *entry));
                }
            },
            TreeEntry::EmptyDir => {
                ops.push(FsOp::CreateDir { path: path.clone() });
                proof {
                    assert(ops@.map_values(|op: FsOp| op@) =~= old(ops)@.map_values(
                        |op: FsOp| op@,
                    ) + entry_ops(path@, *entry));
                }
            },
            TreeEntry::Dir(children) => {
                ops.push(FsOp::CreateDir { path: path.clone() });
                proof {
                    assert(ops@.map_values(|op: FsOp| op@) =~= old(ops)@.map_values(
                        |op: FsOp| op@,
                    ) + seq![
                        FsOpModel { is_dir: true, path: path@, contents: Seq::empty() },
                    ]);
                }
                Self::append_children_ops(ops, path, children);
                proof {
                    assert(ops@.map_values(|op: FsOp| op@) =~= old(ops)@.map_values(
                        |op: FsOp| op@,
                    ) + entry_ops(path@, *entry));
                }
            },
        }
    }

    /// Append the actions that materialize `children` under `prefix` to
    /// `ops`, in order.
    fn append_children_ops(ops: &mut Vec<FsOp>, prefix: &String, children: &Vec<(String, TreeEntry)>)
        ensures
            final(ops)@.map_values(|op: FsOp| op@) == old(ops)@.map_values(|op: FsOp| op@)
                + children_ops(prefix@, children@),
        decreases children@,
    {
        let ghost base = old(ops)@.map_values(|op: FsOp| op@);
        let n = children.len();
        let mut i: usize = 0;
        while i < n
            invariant
                0 <= i <= n,
                n == children@.len(),
                ops@.map_values(|op: FsOp| op@) == base + children_ops(
                    prefix@,
                    children@.take(i as int),
                ),
            decreases n - i,
        {
            let child_path = Self::child_path(prefix, &children[i].0);
            proof {
                assert(decreases_to!(children@ => children@[i as int].1));
            }
            Self::append_entry_ops(ops, &child_path, &children[i].1);
            proof {
                lemma_children_ops_snoc(
                    prefix@,
                    children@.take(i as int),
                    children@[i as int],
                );
                assert(children@.take(i as int).push(children@[i as int]) =~= children@.take(
                    i + 1,
                ));
            }
            i = i + 1;
        }
        proof {
            assert(children@.take(n as int) =~= children@);
        }
    }
}

/// The plan that materializes a whole tree fixture: the actions, in order,
/// that `temp_tree` performs inside a fresh temporary directory. The tree
/// itself must be a directory; its children are laid out relative to the
/// temporary root.
pub fn tree_ops(tree: &TreeEntry) -> (ops: Vec<FsOp>)
    requires
        *tree is Dir,
    ensures
        ops@.map_values(|op: FsOp| op@) == children_ops(Seq::<char>::empty(), tree->Dir_0@),
{
    let mut ops: Vec<FsOp> = Vec::new();
    match tree {
        TreeEntry::Dir(children) => {
            let root = String::new();
            proof {
                assert(ops@.map_values(|op: FsOp| op@) =~= Seq::<FsOpModel>::empty());
            }
            TreeEntry::append_children_ops(&mut ops, &root, children);
            proof {
                assert(ops@.map_values(|op: FsOp| op@) =~= children_ops(
                    Seq::<char>::empty(),
                    tree->Dir_0@,
                ));
            }
        },
        _ => {
            proof {
                assert(false);
            }
        },
    }
    ops
}

/// The character used for row `row` of a sample document: `'a'` advanced by
/// the row number, truncated to a byte exactly as a cast chain through `u8`
/// would truncate it.
pub open spec fn row_char(row: nat) -> char {
    (((97 + row) % 256) as u8) as char
}

/// The sample document with `rows` lines of `cols` columns each: line `i` is
/// `row_char(i)` repeated `cols` times, lines are joined with a newline, and
/// there is no trailing newline.
pub open spec fn sample_text_spec(rows: nat, cols: nat) -> Seq<char>
    decreases rows,
{
    if rows == 0 {
        Seq::empty()
    } else {
        let prev = sample_text_spec((rows - 1) as nat, cols);
        let line = Seq::new(cols, |i: int| row_char((rows - 1) as nat));
        if rows == 1 {
            line
        } else {
            prev + seq!['\n'] + line
        }
    }
}

/// Synthesize a deterministic sample document of `rows` lines, each `cols`
/// copies of one character, starting from `'a'` on the first line.
pub fn sample_text(rows: usize, cols: usize) -> (text: String)
    ensures
        text@ == sample_text_spec(rows as nat, cols as nat),
{
    let mut text = String::new();
    let mut row: usize = 0;
    while row < rows
        invariant
            row <= rows,
            text@ == sample_text_spec(row as nat, cols as nat),
        decreases rows - row,
    {
        if row > 0 {
            text.push('\n');
        }
        let code: u8 = ((97u64 + (row as u64 % 256)) % 256) as u8;
        proof {
            vstd::arithmetic::div_mod::lemma_add_mod_noop(97, row as int, 256);
            assert(code == (97 + row) % 256);
        }
        let ch: char = code as char;
        proof {
            assert(0 <= (97 + row) % 256 < 256);
            assert(ch == row_char(row as nat));
        }
        let ghost text_at_line_start = text@;
        let mut col: usize = 0;
        while col < cols
            invariant
                col <= cols,
                ch == row_char(row as nat),
                text@ == text_at_line_start + Seq::new(col as nat, |i: int| row_char(row as nat)),
            decreases cols - col,
        {
            text.push(ch);
            proof {
                assert(text@ =~= text_at_line_start + Seq::new(
                    (col + 1) as nat,
                    |i: int| row_char(row as nat),
                ));
            }
            col = col + 1;
        }
        proof {
            assert(text@ =~= sample_text_spec((row + 1) as nat, cols as nat));
        }
        row = row + 1;
    }
    text
}

} // verus!
