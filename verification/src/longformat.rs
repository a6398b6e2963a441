//! Pure rules of the long listing format: which character stands for a
//! file type, how permission bits print, how wide the numeric and name
//! columns must be, and when a timestamp counts as recent. Reading the
//! metadata, the user database and the clock happens outside this crate;
//! these functions work on the plain values handed in.

use vstd::prelude::*;
use vstd::arithmetic::div_mod::lemma_multiply_divide_lt;
use vstd::string::StringExecFns;

verus! {

/// A modification time is recent when it lies within this many seconds
/// of the present: six months of thirty days.
pub const RECENT_SECONDS: u64 = 60 * 60 * 24 * 30 * 6;

/// Number of digits in the decimal rendering of `n`.
pub open spec fn decimal_width_of(n: int) -> int
    decreases n,
{
    if n < 10 {
        1
    } else {
        1 + decimal_width_of(n / 10)
    }
}

/// Ten to the `k`-th power.
pub open spec fn pow10(k: nat) -> int
    decreases k,
{
    if k == 0 {
        1
    } else {
        10 * pow10((k - 1) as nat)
    }
}

/// A decimal rendering has at least one digit.
pub proof fn lemma_decimal_width_pos(n: int)
    ensures
        decimal_width_of(n) >= 1,
    decreases n,
{
    if n >= 10 {
        lemma_decimal_width_pos(n / 10);
    }
}

/// A number below ten to the `k`-th has at most `k` digits.
pub proof fn lemma_decimal_width_bound(n: int, k: nat)
    requires
        0 <= n < pow10(k),
        1 <= k,
    ensures
        decimal_width_of(n) <= k,
    decreases k,
{
    if n >= 10 {
        if k == 1 {
            assert(pow10(1) == 10);
        } else {
            assert(pow10(k) == 10 * pow10((k - 1) as nat));
            lemma_multiply_divide_lt(n, pow10((k - 1) as nat), 10);
            lemma_decimal_width_bound(n / 10, (k - 1) as nat);
        }
    }
}

/// The number of digits `n` prints with in decimal.
pub fn decimal_width(n: u64) -> (w: usize)
    ensures
        w == decimal_width_of(n as int),
        1 <= w <= 20,
{
    proof {
        reveal_with_fuel(pow10, 21);
        assert(pow10(20) == 100_000_000_000_000_000_000int);
        lemma_decimal_width_bound(n as int, 20);
        lemma_decimal_width_pos(n as int);
    }
    let mut rest: u64 = n;
    let mut w: usize = 1;
    while rest >= 10
        invariant
            1 <= w <= 20,
            w - 1 + decimal_width_of(rest as int) == decimal_width_of(n as int),
            decimal_width_of(n as int) <= 20,
        decreases rest,
    {
        proof {
            lemma_decimal_width_pos(rest as int / 10);
        }
        rest = rest / 10;
        w = w + 1;
    }
    w
}

/// The single character that introduces a long-format line: the entry's
/// file type. The flags are tested in this fixed order, and `'?'` stands
/// for a type none of them describes.
pub open spec fn file_type_char_of(
    is_dir: bool,
    is_symlink: bool,
    is_char_device: bool,
    is_block_device: bool,
    is_fifo: bool,
    is_socket: bool,
    is_file: bool,
) -> char {
    if is_dir {
        'd'
    } else if is_symlink {
        'l'
    } else if is_char_device {
        'c'
    } else if is_block_device {
        'b'
    } else if is_fifo {
        'p'
    } else if is_socket {
        's'
    } else if is_file {
        '-'
    } else {
        '?'
    }
}

/// The file-type character for an entry whose type flags are given.
pub fn file_type_char(
    is_dir: bool,
    is_symlink: bool,
    is_char_device: bool,
    is_block_device: bool,
    is_fifo: bool,
    is_socket: bool,
    is_file: bool,
) -> (c: char)
    ensures
        c == file_type_char_of(
            is_dir,
            is_symlink,
            is_char_device,
            is_block_device,
            is_fifo,
            is_socket,
            is_file,
        ),
{
    if is_dir {
        'd'
    } else if is_symlink {
        'l'
    } else if is_char_device {
        'c'
    } else if is_block_device {
        'b'
    } else if is_fifo {
        'p'
    } else if is_socket {
        's'
    } else if is_file {
        '-'
    } else {
        '?'
    }
}

/// One position of the permission text: the given letter when the mode
/// bit is set, a dash otherwise.
pub open spec fn perm_str_of(mode: u32, mask: u32, yes: Seq<char>) -> Seq<char> {
    if mode & mask != 0 {
        yes
    } else {
        "-"@
    }
}

/// The nine-character permission text of a mode word: read, write and
/// execute for owner, group and others, in that order.
pub open spec fn perms_of(mode: u32) -> Seq<char> {
    perm_str_of(mode, 0o400, "r"@) + perm_str_of(mode, 0o200, "w"@) + perm_str_of(mode, 0o100, "x"@)
        + perm_str_of(mode, 0o040, "r"@) + perm_str_of(mode, 0o020, "w"@) + perm_str_of(
        mode,
        0o010,
        "x"@,
    ) + perm_str_of(mode, 0o004, "r"@) + perm_str_of(mode, 0o002, "w"@) + perm_str_of(
        mode,
        0o001,
        "x"@,
    )
}

/// Append one permission position to the text under construction.
fn append_perm(s: &mut String, mode: u32, mask: u32, yes: &str)
    ensures
        final(s)@ == old(s)@ + perm_str_of(mode, mask, yes@),
{
    if mode & mask != 0 {
        s.append(yes);
    } else {
        s.append("-");
    }
}

/// The permission text of a mode word, nine characters long.
pub fn perms_string(mode: u32) -> (s: String)
    ensures
        s@ == perms_of(mode),
        s@.len() == 9,
{
    let mut s = String::new();
    append_perm(&mut s, mode, 0o400, "r");
    append_perm(&mut s, mode, 0o200, "w");
    append_perm(&mut s, mode, 0o100, "x");
    append_perm(&mut s, mode, 0o040, "r");
    append_perm(&mut s, mode, 0o020, "w");
    append_perm(&mut s, mode, 0o010, "x");
    append_perm(&mut s, mode, 0o004, "r");
    append_perm(&mut s, mode, 0o002, "w");
    append_perm(&mut s, mode, 0o001, "x");
    proof {
        reveal_strlit("r");
        reveal_strlit("w");
        reveal_strlit("x");
        reveal_strlit("-");
        assert(s@ =~= perms_of(mode));
    }
    s
}

/// The size a long-format line shows: directories print as size zero.
pub fn display_size(is_dir: bool, len: u64) -> (size: u64)
    ensures
        size == if is_dir {
            0u64
        } else {
            len
        },
{
    if is_dir {
        0
    } else {
        len
    }
}

/// Whether a modification time counts as recent: it lies no further than
/// six months of thirty days before the present. Times in the future are
/// outside this rule and must be rejected by the caller.
pub fn is_recent(now_secs: u64, modified_secs: u64) -> (recent: bool)
    requires
        modified_secs <= now_secs,
    ensures
        recent == (now_secs - modified_secs < RECENT_SECONDS),
{
    now_secs - modified_secs < RECENT_SECONDS
}

/// Column widths of one long-format listing block.
pub struct LongFormatConfig {
    /// Width of the size column.
    pub size_width: usize,
    /// Width of the owner name column.
    pub user_width: usize,
    /// Width of the group name column.
    pub group_width: usize,
    /// Width of the link-count column.
    pub nlinks_width: usize,
}

/// The widest value among the first `k` of `s`, but never less than one.
pub open spec fn width_floor(s: Seq<int>, k: int) -> int
    decreases k,
{
    if k <= 0 {
        1
    } else {
        let prev = width_floor(s, k - 1);
        if s[k - 1] > prev {
            s[k - 1]
        } else {
            prev
        }
    }
}

/// Compute the four column widths of a long-format block from each
/// entry's size, link count, owner-name width and group-name width.
/// Numeric columns are as wide as their widest decimal rendering; name
/// columns as wide as their widest name; every column at least one.
pub fn longformat_widths(
    sizes: &Vec<u64>,
    nlinks: &Vec<u64>,
    user_widths: &Vec<usize>,
    group_widths: &Vec<usize>,
) -> (cfg: LongFormatConfig)
    requires
        sizes@.len() == nlinks@.len(),
        sizes@.len() == user_widths@.len(),
        sizes@.len() == group_widths@.len(),
    ensures
        cfg.size_width == width_floor(
            sizes@.map_values(|v: u64| decimal_width_of(v as int)),
            sizes@.len() as int,
        ),
        cfg.nlinks_width == width_floor(
            nlinks@.map_values(|v: u64| decimal_width_of(v as int)),
            nlinks@.len() as int,
        ),
        cfg.user_width == width_floor(
            user_widths@.map_values(|v: usize| v as int),
            user_widths@.len() as int,
        ),
        cfg.group_width == width_floor(
            group_widths@.map_values(|v: usize| v as int),
            group_widths@.len() as int,
        ),
{
    let mut cfg = LongFormatConfig {
        size_width: 1,
        user_width: 1,
        group_width: 1,
        nlinks_width: 1,
    };
    let mut i: usize = 0;
    while i < sizes.len()
        invariant
            i <= sizes@.len(),
            sizes@.len() == nlinks@.len(),
            sizes@.len() == user_widths@.len(),
            sizes@.len() == group_widths@.len(),
            cfg.size_width == width_floor(
                sizes@.map_values(|v: u64| decimal_width_of(v as int)),
                i as int,
            ),
            cfg.nlinks_width == width_floor(
                nlinks@.map_values(|v: u64| decimal_width_of(v as int)),
                i as int,
            ),
            cfg.user_width == width_floor(user_widths@.map_values(|v: usize| v as int), i as int),
            cfg.group_width == width_floor(group_widths@.map_values(|v: usize| v as int), i as int),
        decreases sizes@.len() - i,
    {
        let sw = decimal_width(sizes[i]);
        if sw > cfg.size_width {
            cfg.size_width = sw;
        }
        let nw = decimal_width(nlinks[i]);
        if nw > cfg.nlinks_width {
            cfg.nlinks_width = nw;
        }
        if user_widths[i] > cfg.user_width {
            cfg.user_width = user_widths[i];
        }
        if group_widths[i] > cfg.group_width {
            cfg.group_width = group_widths[i];
        }
        i = i + 1;
    }
    cfg
}

} // verus!
