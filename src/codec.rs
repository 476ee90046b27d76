//! Translation of a reaction symbol into a number of reserved slots.
use vstd::prelude::*;
use vstd::string::*;

verus! {

/// `name` is the part of `data` before its first `:` (all of `data` where it
/// holds no `:`).
pub open spec fn is_emoji_name(data: Seq<char>, name: Seq<char>) -> bool {
    &&& name.len() <= data.len()
    &&& name == data.subrange(0, name.len() as int)
    &&& forall|i: int| 0 <= i < name.len() ==> name[i] != ':'
    &&& (name.len() == data.len() || data[name.len() as int] == ':')
}

/// The text of `data` before its first `:`.
pub open spec fn emoji_name_of(data: Seq<char>) -> Seq<char>
    decreases data.len(),
{
    if data.len() == 0 {
        data
    } else if data[0] == ':' {
        Seq::empty()
    } else {
        seq![data[0]] + emoji_name_of(data.drop_first())
    }
}

proof fn lemma_emoji_name_unique(data: Seq<char>, name: Seq<char>)
    requires
        is_emoji_name(data, name),
    ensures
        name == emoji_name_of(data),
    decreases name.len(),
{
    if name.len() > 0 {
        let d = data.drop_first();
        let n = name.drop_first();
        assert(name[0] == data[0]);
        assert(n =~= d.subrange(0, n.len() as int));
        assert forall|i: int| 0 <= i < n.len() implies n[i] != ':' by {
            assert(n[i] == name[i + 1]);
        }
        lemma_emoji_name_unique(d, n);
        assert(name =~= seq![data[0]] + n);
    }
}

/// Slots that one reaction with the symbol called `name` stands for.
pub open spec fn count_of(name: Seq<char>) -> u8 {
    if name == "2_"@ {
        2
    } else if name == "3_"@ {
        3
    } else {
        1
    }
}

/// The symbol name of a reaction's encoded form (`name:id` for a custom
/// symbol): the text before the first `:`.
pub fn emoji_name_from_string(string: &str) -> (r: String)
    ensures
        is_emoji_name(string@, r@),
        r@ == emoji_name_of(string@),
{
    let n = string.unicode_len();
    let mut i: usize = 0;
    while i < n
        invariant
            n == string@.len(),
            i <= n,
            forall|j: int| 0 <= j < i ==> string@[j] != ':',
        ensures
            i <= n,
            forall|j: int| 0 <= j < i ==> string@[j] != ':',
            i == n || string@[i as int] == ':',
        decreases n - i,
    {
        if string.get_char(i) == ':' {
            break;
        }
        i = i + 1;
    }
    let name = String::from_str(string.substring_char(0, i));
    proof {
        lemma_emoji_name_unique(string@, name@);
    }
    name
}

/// Slots that one reaction with the symbol called `emoji_name` stands for:
/// 2 for `2_`, 3 for `3_`, and 1 for `1_` and for every other symbol.
pub fn count_from_emoji_name(emoji_name: &String) -> (r: u8)
    ensures
        r == count_of(emoji_name@),
        1 <= r <= 3,
{
    let two = String::from_str("2_");
    let three = String::from_str("3_");
    if *emoji_name == two {
        2
    } else if *emoji_name == three {
        3
    } else {
        1
    }
}

/// Slots that a reaction stands for, from the reaction's encoded form.
pub fn count_from_emoji_data(data: &str) -> (r: u8)
    ensures
        r == count_of(emoji_name_of(data@)),
        1 <= r <= 3,
{
    let name = emoji_name_from_string(data);
    count_from_emoji_name(&name)
}

} // verus!
