//! The tables that the `key list` and `user list` commands print.
use vstd::prelude::*;

use crate::api::UserRow;
use crate::keys::{KeyRow, PoolStats};
use crate::text::{concat, push_char};
use crate::webui::{mask_key, spec_mask_key};

verus! {

/// The decimal digits of a natural number, most significant first, without leading zeros.
pub open spec fn decimal_digits(n: nat) -> Seq<char>
    decreases n,
{
    if n < 10 {
        seq![((n + 48) as u32) as char]
    } else {
        decimal_digits(n / 10).push((((n % 10) + 48) as u32) as char)
    }
}

/// How Rust displays an integer: an optional `-`, then its decimal digits.
pub open spec fn decimal(n: int) -> Seq<char> {
    if n < 0 {
        seq!['-'] + decimal_digits((-n) as nat)
    } else {
        decimal_digits(n as nat)
    }
}

fn digit_char(d: u8) -> (c: char)
    requires
        d < 10,
    ensures
        c == ((d + 48) as u32) as char,
{
    (d + 48) as char
}

/// Writes an integer in decimal, as `i64::to_string` does.
pub fn i64_to_decimal(n: i64) -> (r: String)
    ensures
        r@ == decimal(n as int),
{
    let neg = n < 0;
    let mut m: u64 = if neg {
        ((0 - (n as i128)) as u64)
    } else {
        n as u64
    };
    let ghost mag: nat = if neg {
        (-(n as int)) as nat
    } else {
        n as nat
    };
    assert(m == mag);
    // Digits least significant first.
    let mut rev: Vec<char> = Vec::new();
    assert(decimal_digits(mag) =~= decimal_digits(m as nat) + rev@.reverse());
    loop
        invariant_except_break
            decimal_digits(mag) == decimal_digits(m as nat) + rev@.reverse(),
        ensures
            decimal_digits(mag) == rev@.reverse(),
        decreases m,
    {
        let d = (m % 10) as u8;
        let ghost before = rev@;
        rev.push(digit_char(d));
        assert(rev@.reverse() =~= seq![(((m % 10) + 48) as u32) as char] + before.reverse());
        if m < 10 {
            assert(decimal_digits(m as nat) == seq![((m + 48) as u32) as char]);
            assert(decimal_digits(mag) =~= rev@.reverse());
            break;
        }
        assert(decimal_digits(m as nat) == decimal_digits((m / 10) as nat).push((((m % 10) + 48) as u32) as char));
        assert(decimal_digits(mag) =~= decimal_digits((m / 10) as nat) + rev@.reverse());
        m = m / 10;
    }
    let mut out = String::new();
    if neg {
        push_char(&mut out, '-');
    }
    let ghost lead = out@;
    let mut i: usize = rev.len();
    while i > 0
        invariant
            i <= rev.len(),
            out@ == lead + rev@.reverse().take((rev.len() - i) as int),
        decreases i,
    {
        i = i - 1;
        push_char(&mut out, rev[i]);
        assert(rev@.reverse().take((rev.len() - i) as int) =~= rev@.reverse().take((rev.len() - i - 1) as int).push(rev@[i as int]));
    }
    assert(rev@.reverse().take(rev.len() as int) =~= rev@.reverse());
    out
}

/// `s` padded on the right with spaces to `width` characters (as `{:<width}` formats it);
/// a longer `s` is left whole.
pub open spec fn pad_right(s: Seq<char>, width: nat) -> Seq<char> {
    if s.len() >= width {
        s
    } else {
        s + Seq::new((width - s.len()) as nat, |i: int| ' ')
    }
}

/// Pads `s` on the right with spaces to `width` characters.
pub fn pad(s: &str, width: usize) -> (r: String)
    ensures
        r@ == pad_right(s@, width as nat),
{
    let mut out = s.to_owned();
    let ghost base = s@;
    let mut count: usize = crate::text::chars_of(s).len();
    while count < width
        invariant
            count <= width || count == base.len(),
            base.len() <= count,
            out@ == base + Seq::new((count - base.len()) as nat, |i: int| ' '),
        decreases width - count,
    {
        push_char(&mut out, ' ');
        count = count + 1;
        assert(out@ =~= base + Seq::new((count - base.len()) as nat, |i: int| ' '));
    }
    proof {
        if base.len() >= width {
            assert(out@ =~= base);
        }
    }
    out
}

/// The text shown for an optional field: its value, or `-`.
pub open spec fn or_dash(o: Option<Seq<char>>) -> Seq<char> {
    match o {
        Some(s) => s,
        None => "-"@,
    }
}

/// The text shown for an optional number: its decimal form, or `-`.
pub open spec fn num_or_dash(o: Option<i64>) -> Seq<char> {
    match o {
        Some(n) => decimal(n as int),
        None => "-"@,
    }
}

/// A row of space-separated columns, each but the last padded to its width.
pub open spec fn columns(cells: Seq<Seq<char>>, widths: Seq<nat>) -> Seq<char>
    decreases cells.len(),
{
    if cells.len() == 0 {
        Seq::<char>::empty()
    } else if cells.len() == 1 {
        cells[0]
    } else {
        pad_right(cells[0], widths[0]) + " "@ + columns(cells.skip(1), widths.skip(1))
    }
}

fn join2(a: &str, width: usize, rest: &str) -> (r: String)
    ensures
        r@ == pad_right(a@, width as nat) + " "@ + rest@,
{
    let p = pad(a, width);
    let s = concat(p.as_str(), " ");
    concat(s.as_str(), rest)
}

fn opt_text(o: &Option<String>) -> (r: String)
    ensures
        r@ == or_dash(match o {
            Some(s) => Some(s@),
            None => None,
        }),
{
    match o {
        Some(s) => s.clone(),
        None => "-".to_owned(),
    }
}

fn opt_num(o: Option<i64>) -> (r: String)
    ensures
        r@ == num_or_dash(o),
{
    match o {
        Some(n) => i64_to_decimal(n),
        None => "-".to_owned(),
    }
}

/// The column widths of the key table.
pub open spec fn key_widths() -> Seq<nat> {
    seq![4nat, 10nat, 14nat, 14nat, 16nat, 8nat]
}

/// The header of the key table.
pub open spec fn key_header() -> Seq<char> {
    columns(
        seq!["id"@, "provider"@, "account"@, "status"@, "cooldown_until"@, "credits"@, "key"@],
        key_widths(),
    )
}

/// A key's line in the key table: id, provider, account, status, cooldown end, credits
/// and the masked key.
pub open spec fn key_line(k: KeyRow) -> Seq<char> {
    columns(
        seq![
            decimal(k.id as int),
            k.provider@,
            or_dash(crate::keys::opt_view(k.account_team)),
            k.status@,
            num_or_dash(k.cooldown_until),
            num_or_dash(k.credits_remaining),
            spec_mask_key(k.key_value@),
        ],
        key_widths(),
    )
}

proof fn lemma_columns7(c: Seq<Seq<char>>, w: Seq<nat>)
    requires
        c.len() == 7,
        w.len() == 6,
    ensures
        columns(c, w) == pad_right(c[0], w[0]) + " "@ + (pad_right(c[1], w[1]) + " "@ + (pad_right(c[2], w[2]) + " "@ + (
        pad_right(c[3], w[3]) + " "@ + (pad_right(c[4], w[4]) + " "@ + (pad_right(c[5], w[5]) + " "@ + c[6]))))),
{
    let c1 = c.skip(1);
    let w1 = w.skip(1);
    let c2 = c1.skip(1);
    let w2 = w1.skip(1);
    let c3 = c2.skip(1);
    let w3 = w2.skip(1);
    let c4 = c3.skip(1);
    let w4 = w3.skip(1);
    let c5 = c4.skip(1);
    let w5 = w4.skip(1);
    let c6 = c5.skip(1);
    let w6 = w5.skip(1);
    assert(columns(c6, w6) == c[6]);
    assert(columns(c5, w5) == pad_right(c[5], w[5]) + " "@ + c[6]);
    assert(columns(c4, w4) == pad_right(c[4], w[4]) + " "@ + columns(c5, w5));
    assert(columns(c3, w3) == pad_right(c[3], w[3]) + " "@ + columns(c4, w4));
    assert(columns(c2, w2) == pad_right(c[2], w[2]) + " "@ + columns(c3, w3));
    assert(columns(c1, w1) == pad_right(c[1], w[1]) + " "@ + columns(c2, w2));
}

fn line7(c: [&str; 7], w: [usize; 6]) -> (r: String)
    ensures
        r@ == pad_right(c[0]@, w[0] as nat) + " "@ + (pad_right(c[1]@, w[1] as nat) + " "@ + (pad_right(c[2]@, w[2] as nat) + " "@ + (
        pad_right(c[3]@, w[3] as nat) + " "@ + (pad_right(c[4]@, w[4] as nat) + " "@ + (pad_right(c[5]@, w[5] as nat) + " "@ + c[6]@))))),
{
    let s5 = join2(c[5], w[5], c[6]);
    let s4 = join2(c[4], w[4], s5.as_str());
    let s3 = join2(c[3], w[3], s4.as_str());
    let s2 = join2(c[2], w[2], s3.as_str());
    let s1 = join2(c[1], w[1], s2.as_str());
    join2(c[0], w[0], s1.as_str())
}

/// A key's line shows, in this order and padded to the key table's widths, the row's id in
/// decimal, its provider, its account (or `-`), its status, its `cooldown_until` in decimal
/// (or `-` when it has none), its remaining credits in decimal (or `-`) and its masked key.
pub proof fn lemma_key_line_cells(k: KeyRow)
    ensures
        key_line(k) == pad_right(decimal(k.id as int), 4) + " "@ + (pad_right(k.provider@, 10) + " "@ + (
        pad_right(
            match k.account_team {
                Some(a) => a@,
                None => "-"@,
            },
            14,
        ) + " "@ + (pad_right(k.status@, 14) + " "@ + (pad_right(
            match k.cooldown_until {
                Some(t) => decimal(t as int),
                None => "-"@,
            },
            16,
        ) + " "@ + (pad_right(
            match k.credits_remaining {
                Some(c) => decimal(c as int),
                None => "-"@,
            },
            8,
        ) + " "@ + spec_mask_key(k.key_value@)))))),
{
    lemma_columns7(
        seq![
            decimal(k.id as int),
            k.provider@,
            or_dash(crate::keys::opt_view(k.account_team)),
            k.status@,
            num_or_dash(k.cooldown_until),
            num_or_dash(k.credits_remaining),
            spec_mask_key(k.key_value@),
        ],
        key_widths(),
    );
}

/// The key table shows the cooldown end and not the last use: two rows that agree on every
/// shown field, their cooldown end included, print the same line whenever they were last
/// used and whatever their last error.
pub proof fn lemma_key_line_ignores_last_use(a: KeyRow, b: KeyRow)
    requires
        a.id == b.id,
        a.provider@ == b.provider@,
        crate::keys::opt_view(a.account_team) == crate::keys::opt_view(b.account_team),
        a.status@ == b.status@,
        a.cooldown_until == b.cooldown_until,
        a.credits_remaining == b.credits_remaining,
        a.key_value@ == b.key_value@,
    ensures
        key_line(a) == key_line(b),
{
    lemma_key_line_cells(a);
    lemma_key_line_cells(b);
    assert(match a.account_team {
        Some(x) => x@,
        None => "-"@,
    } == match b.account_team {
        Some(x) => x@,
        None => "-"@,
    });
}

/// The lines that `key list` prints: `(no keys)` for an empty pool, else the header and one
/// line per key, in the order given.
pub fn key_list_lines(rows: &Vec<KeyRow>) -> (r: Vec<String>)
    ensures
        rows.len() == 0 ==> r@.len() == 1 && r@[0]@ == "(no keys)"@,
        rows.len() > 0 ==> r@.len() == rows.len() + 1 && r@[0]@ == key_header()
            && forall|i: int| 0 <= i < rows.len() ==> #[trigger] r@[i + 1]@ == key_line(rows@[i]),
{
    let mut out: Vec<String> = Vec::new();
    if rows.len() == 0 {
        out.push("(no keys)".to_owned());
        return out;
    }
    let header = line7(["id", "provider", "account", "status", "cooldown_until", "credits", "key"], [4, 10, 14, 14, 16, 8]);
    proof {
        lemma_columns7(seq!["id"@, "provider"@, "account"@, "status"@, "cooldown_until"@, "credits"@, "key"@], key_widths());
    }
    out.push(header);
    let mut i: usize = 0;
    while i < rows.len()
        invariant
            i <= rows.len(),
            out@.len() == i + 1,
            out@[0]@ == key_header(),
            forall|j: int| 0 <= j < i ==> #[trigger] out@[j + 1]@ == key_line(rows@[j]),
        decreases rows.len() - i,
    {
        let r = &rows[i];
        let id = i64_to_decimal(r.id);
        let acc = opt_text(&r.account_team);
        let cd = opt_num(r.cooldown_until);
        let cr = opt_num(r.credits_remaining);
        let key = mask_key(r.key_value.as_str());
        let line = line7(
            [id.as_str(), r.provider.as_str(), acc.as_str(), r.status.as_str(), cd.as_str(), cr.as_str(), key.as_str()],
            [4, 10, 14, 14, 16, 8],
        );
        proof {
            lemma_columns7(
                seq![
                    decimal(r.id as int),
                    r.provider@,
                    or_dash(crate::keys::opt_view(r.account_team)),
                    r.status@,
                    num_or_dash(r.cooldown_until),
                    num_or_dash(r.credits_remaining),
                    spec_mask_key(r.key_value@),
                ],
                key_widths(),
            );
        }
        out.push(line);
        i = i + 1;
    }
    out
}

/// The header of the user table.
pub open spec fn user_header() -> Seq<char> {
    pad_right("id"@, 4) + " "@ + (pad_right("token"@, 36) + " "@ + (pad_right("name"@, 16) + " "@ + "created_at"@))
}

/// A user's line in the user table: id, token, name and creation time.
pub open spec fn user_line(u: UserRow) -> Seq<char> {
    pad_right(decimal(u.id as int), 4) + " "@ + (pad_right(u.token@, 36) + " "@ + (pad_right(
        or_dash(crate::keys::opt_view(u.name)),
        16,
    ) + " "@ + decimal(u.created_at as int)))
}

/// The lines that `user list` prints: `(no users)` when there are none, else the header and
/// one line per user, in the order given.
pub fn user_list_lines(users: &Vec<UserRow>) -> (r: Vec<String>)
    ensures
        users.len() == 0 ==> r@.len() == 1 && r@[0]@ == "(no users)"@,
        users.len() > 0 ==> r@.len() == users.len() + 1 && r@[0]@ == user_header()
            && forall|i: int| 0 <= i < users.len() ==> #[trigger] r@[i + 1]@ == user_line(users@[i]),
{
    let mut out: Vec<String> = Vec::new();
    if users.len() == 0 {
        out.push("(no users)".to_owned());
        return out;
    }
    let h2 = join2("name", 16, "created_at");
    let h1 = join2("token", 36, h2.as_str());
    out.push(join2("id", 4, h1.as_str()));
    let mut i: usize = 0;
    while i < users.len()
        invariant
            i <= users.len(),
            out@.len() == i + 1,
            out@[0]@ == user_header(),
            forall|j: int| 0 <= j < i ==> #[trigger] out@[j + 1]@ == user_line(users@[j]),
        decreases users.len() - i,
    {
        let u = &users[i];
        let id = i64_to_decimal(u.id);
        let name = opt_text(&u.name);
        let created = i64_to_decimal(u.created_at);
        let s2 = join2(name.as_str(), 16, created.as_str());
        let s1 = join2(u.token.as_str(), 36, s2.as_str());
        out.push(join2(id.as_str(), 4, s1.as_str()));
        i = i + 1;
    }
    out
}

/// What `user create` prints for a new token: the token, and how to point each CLI at the
/// VPS with it.
pub open spec fn user_created_text(token: Seq<char>) -> Seq<Seq<char>> {
    seq![
        "created user token: "@ + token,
        "point the CLI at the VPS and use this token as the API key:"@,
        "  firecrawl --api-url https://<vps>/firecrawl   (FIRECRAWL_API_KEY="@ + token + ")"@,
        "  TAVILY_API_BASE_URL=https://<vps>/tavily      TAVILY_API_KEY="@ + token,
    ]
}

/// The lines printed after a user token was created.
pub fn user_created_lines(token: &str) -> (r: Vec<String>)
    ensures
        r@.len() == 4,
        forall|i: int| 0 <= i < 4 ==> #[trigger] r@[i]@ == user_created_text(token@)[i],
{
    let mut out: Vec<String> = Vec::new();
    out.push(concat("created user token: ", token));
    out.push("point the CLI at the VPS and use this token as the API key:".to_owned());
    let a = concat("  firecrawl --api-url https://<vps>/firecrawl   (FIRECRAWL_API_KEY=", token);
    out.push(concat(a.as_str(), ")"));
    out.push(concat("  TAVILY_API_BASE_URL=https://<vps>/tavily      TAVILY_API_KEY=", token));
    out
}

/// A status's line in the pool status: two spaces, the status, `: ` and its key count.
pub open spec fn status_count_line(status: Seq<char>, count: i64) -> Seq<char> {
    "  "@ + status + ": "@ + decimal(count as int)
}

/// What `status` prints: the number of keys, the number of user tokens, then each key
/// status that occurs with its number of keys, in the order given.
pub fn status_lines(stats: &PoolStats) -> (r: Vec<String>)
    ensures
        r@.len() == stats.keys_by_status@.len() + 2,
        r@[0]@ == "keys: "@ + decimal(stats.total_keys as int),
        r@[1]@ == "users: "@ + decimal(stats.total_users as int),
        forall|i: int|
            0 <= i < stats.keys_by_status@.len() ==> #[trigger] r@[i + 2]@ == status_count_line(
                stats.keys_by_status@[i].0@,
                stats.keys_by_status@[i].1,
            ),
{
    let mut out: Vec<String> = Vec::new();
    let keys = i64_to_decimal(stats.total_keys);
    out.push(concat("keys: ", keys.as_str()));
    let users = i64_to_decimal(stats.total_users);
    out.push(concat("users: ", users.as_str()));
    let mut i: usize = 0;
    while i < stats.keys_by_status.len()
        invariant
            i <= stats.keys_by_status.len(),
            out@.len() == i + 2,
            out@[0]@ == "keys: "@ + decimal(stats.total_keys as int),
            out@[1]@ == "users: "@ + decimal(stats.total_users as int),
            forall|j: int|
                0 <= j < i ==> #[trigger] out@[j + 2]@ == status_count_line(
                    stats.keys_by_status@[j].0@,
                    stats.keys_by_status@[j].1,
                ),
        decreases stats.keys_by_status.len() - i,
    {
        let g = &stats.keys_by_status[i];
        let a = concat("  ", g.0.as_str());
        let b = concat(a.as_str(), ": ");
        let n = i64_to_decimal(g.1);
        out.push(concat(b.as_str(), n.as_str()));
        i = i + 1;
    }
    out
}

} // verus!
