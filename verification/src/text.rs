//! How ids and principles are written in messages.

use vstd::prelude::*;
use vstd::string::*;
use crate::policy::Principle;

verus! {

/// The character of one decimal digit.
pub open spec fn digit_char(d: nat) -> char {
    if d == 0 {
        '0'
    } else if d == 1 {
        '1'
    } else if d == 2 {
        '2'
    } else if d == 3 {
        '3'
    } else if d == 4 {
        '4'
    } else if d == 5 {
        '5'
    } else if d == 6 {
        '6'
    } else if d == 7 {
        '7'
    } else if d == 8 {
        '8'
    } else {
        '9'
    }
}

/// A number in decimal, without sign or leading zeros.
pub open spec fn decimal(n: nat) -> Seq<char>
    decreases n,
{
    if n < 10 {
        seq![digit_char(n)]
    } else {
        decimal(n / 10).push(digit_char(n % 10))
    }
}

/// The one-character text of a digit.
pub fn digit_str(d: u64) -> (s: &'static str)
    requires
        d < 10,
    ensures
        s@ == seq![digit_char(d as nat)],
{
    proof {
        reveal_strlit("0");
        reveal_strlit("1");
        reveal_strlit("2");
        reveal_strlit("3");
        reveal_strlit("4");
        reveal_strlit("5");
        reveal_strlit("6");
        reveal_strlit("7");
        reveal_strlit("8");
        reveal_strlit("9");
    }
    let s = if d == 0 {
        "0"
    } else if d == 1 {
        "1"
    } else if d == 2 {
        "2"
    } else if d == 3 {
        "3"
    } else if d == 4 {
        "4"
    } else if d == 5 {
        "5"
    } else if d == 6 {
        "6"
    } else if d == 7 {
        "7"
    } else if d == 8 {
        "8"
    } else {
        "9"
    };
    assert(s@ =~= seq![digit_char(d as nat)]);
    s
}

/// Appends a number in decimal to a text.
pub fn push_decimal(out: &mut String, n: u64)
    ensures
        final(out)@ == old(out)@ + decimal(n as nat),
    decreases n,
{
    if n >= 10 {
        push_decimal(out, n / 10);
    }
    out.append(digit_str(n % 10));
    assert(out@ =~= old(out)@ + decimal(n as nat));
}

/// A number in decimal.
pub fn decimal_string(n: u64) -> (s: String)
    ensures
        s@ == decimal(n as nat),
{
    let mut s = String::new();
    push_decimal(&mut s, n);
    assert(s@ =~= decimal(n as nat));
    s
}

/// How a principle is named in a message: the global scope and a guild in
/// words, a channel as `<#id>`, a role as `<@&id>`, a member as `<@id>` of
/// the user, with the id in decimal.
pub open spec fn principle_text(principle: Principle) -> Seq<char> {
    match principle {
        Principle::Global => "Global"@,
        Principle::Guild(_) => "This guild"@,
        Principle::Channel(id) => mention_text("<#"@, id),
        Principle::Role(id) => mention_text("<@&"@, id),
        Principle::Member(_, id) => mention_text("<@"@, id),
    }
}

/// A mention: a prefix, an id in decimal and a closing `>`.
pub open spec fn mention_text(prefix: Seq<char>, id: u64) -> Seq<char> {
    prefix + decimal(id as nat) + ">"@
}

/// A prefix, an id in decimal and a closing `>`.
fn mention(prefix: &str, id: u64) -> (s: String)
    ensures
        s@ == mention_text(prefix@, id),
{
    let mut s = prefix.to_string();
    push_decimal(&mut s, id);
    s.append(">");
    s
}

/// The mentions of the ids in order, with a comma and a blank between one
/// and the next.
pub open spec fn joined_mentions(prefix: Seq<char>, ids: Seq<u64>) -> Seq<char>
    decreases ids.len(),
{
    if ids.len() == 0 {
        Seq::empty()
    } else if ids.len() == 1 {
        mention_text(prefix, ids[0])
    } else {
        joined_mentions(prefix, ids.drop_last()) + ", "@ + mention_text(prefix, ids.last())
    }
}

/// A line that lists the mentions under a label; nothing for no ids.
pub open spec fn listed_mentions(label: Seq<char>, prefix: Seq<char>, ids: Seq<u64>) -> Seq<char> {
    if ids.len() == 0 {
        Seq::empty()
    } else {
        "\n"@ + label + ": "@ + joined_mentions(prefix, ids)
    }
}

/// Appends to `prompt` a line with the mentions of `ids` under `label`,
/// where there are any.
pub fn write_mentionables(prompt: &mut String, label: &str, prefix: &str, ids: &Vec<u64>)
    ensures
        final(prompt)@ == old(prompt)@ + listed_mentions(label@, prefix@, ids@),
{
    if ids.len() == 0 {
        assert(prompt@ =~= old(prompt)@ + listed_mentions(label@, prefix@, ids@));
        return ;
    }
    prompt.append("\n");
    prompt.append(label);
    prompt.append(": ");
    let ghost base = prompt@;
    let first = mention(prefix, ids[0]);
    prompt.append(first.as_str());
    let mut i: usize = 1;
    proof {
        assert(ids@.take(1).len() == 1);
        assert(ids@.take(1)[0] == ids@[0]);
        assert(prompt@ =~= base + joined_mentions(prefix@, ids@.take(1)));
    }
    while i < ids.len()
        invariant
            1 <= i <= ids.len(),
            prompt@ == base + joined_mentions(prefix@, ids@.take(i as int)),
        decreases ids.len() - i,
    {
        let next = mention(prefix, ids[i]);
        prompt.append(", ");
        prompt.append(next.as_str());
        proof {
            let upto = ids@.take(i as int + 1);
            assert(upto.last() == ids@[i as int]);
            assert(upto.drop_last() =~= ids@.take(i as int));
            assert(prompt@ =~= base + joined_mentions(prefix@, upto));
        }
        i += 1;
    }
    proof {
        assert(ids@.take(i as int) =~= ids@);
        assert(prompt@ =~= old(prompt)@ + listed_mentions(label@, prefix@, ids@));
    }
}

/// The prompt of a form that picks scopes: the prefix, `Server-wide` where
/// nothing is picked, then the channels, roles and users that are.
pub open spec fn prompt_text(
    prefix: Seq<char>,
    channels: Seq<u64>,
    roles: Seq<u64>,
    users: Seq<u64>,
) -> Seq<char> {
    prefix + (if channels.len() == 0 && roles.len() == 0 && users.len() == 0 {
        "\nServer-wide"@
    } else {
        Seq::empty()
    }) + listed_mentions("Channels"@, "<#"@, channels) + listed_mentions("Roles"@, "<@&"@, roles)
        + listed_mentions("Users"@, "<@"@, users)
}

pub fn build_prompt(prefix: &str, channels: &Vec<u64>, roles: &Vec<u64>, users: &Vec<u64>) -> (s:
    String)
    ensures
        s@ == prompt_text(prefix@, channels@, roles@, users@),
{
    let mut prompt = prefix.to_string();
    if channels.len() == 0 && roles.len() == 0 && users.len() == 0 {
        prompt.append("\nServer-wide");
    }
    assert(prompt@ =~= prefix@ + (if channels@.len() == 0 && roles@.len() == 0 && users@.len() == 0 {
        "\nServer-wide"@
    } else {
        Seq::empty()
    }));
    write_mentionables(&mut prompt, "Channels", "<#", channels);
    write_mentionables(&mut prompt, "Roles", "<@&", roles);
    write_mentionables(&mut prompt, "Users", "<@", users);
    prompt
}

impl Principle {
    /// The principle as it is named in a message.
    pub fn describe(&self) -> (s: String)
        ensures
            s@ == principle_text(*self),
    {
        match self {
            Principle::Global => "Global".to_string(),
            Principle::Guild(_) => "This guild".to_string(),
            Principle::Channel(id) => mention("<#", *id),
            Principle::Role(id) => mention("<@&", *id),
            Principle::Member(_, id) => mention("<@", *id),
        }
    }
}

} // verus!
