//! Looking up a text value in a configuration document by a path such as
//! `settings/title`.

use crate::model::Json;
use crate::node::Node;
use vstd::prelude::*;

verus! {

/// The parts of a path, which `/` separates. A path without `/` is one
/// part; two `/` in a row hold an empty part between them.
pub open spec fn split_path(path: Seq<char>) -> Seq<Seq<char>>
    decreases path.len(),
{
    if path.len() == 0 {
        seq![Seq::empty()]
    } else {
        let before = split_path(path.drop_last());
        if path.last() == '/' {
            before.push(Seq::empty())
        } else {
            before.drop_last().push(before.last().push(path.last()))
        }
    }
}

/// The value that is reached from `node` by going down one key after the
/// other; none where a key is missing or a value on the way is no object.
pub open spec fn descend(node: Json, parts: Seq<Seq<char>>) -> Option<Json>
    decreases parts.len(),
{
    if parts.len() == 0 {
        Some(node)
    } else {
        match node.get(parts[0]) {
            Some(child) => descend(child, parts.skip(1)),
            None => None,
        }
    }
}

/// The text at the path, or the default where the path leads nowhere or to
/// something that is not text.
pub open spec fn config_value(config: Json, path: Seq<char>, default_value: Seq<char>) -> Seq<char> {
    match descend(config, split_path(path)) {
        Some(Json::Text(text)) => text,
        _ => default_value,
    }
}

/// The model of a list of texts.
pub open spec fn texts_view(texts: Seq<String>) -> Seq<Seq<char>> {
    Seq::new(texts.len(), |i: int| texts[i]@)
}

/// Splits a path at each `/`.
pub fn split_at_slashes(path: &str) -> (r: Vec<String>)
    ensures
        texts_view(r@) == split_path(path@),
{
    let mut done: Vec<String> = Vec::new();
    let mut current = String::new();
    assert(path@.take(0) =~= Seq::empty());
    assert(texts_view(done@).push(current@) =~= seq![Seq::<char>::empty()]);
    for c in it: path.chars()
        invariant
            it.seq() == path@,
            split_path(path@.take(it.index())) == texts_view(done@).push(current@),
    {
        let ghost prefix = path@.take(it.index());
        let ghost next = path@.take(it.index() + 1);
        let ghost parts = texts_view(done@);
        let ghost word = current@;
        proof {
            assert(next.drop_last() =~= prefix);
            assert(next.last() == c);
            assert(split_path(prefix).last() == word);
            assert(split_path(prefix).drop_last() =~= parts);
        }
        if c == '/' {
            done.push(current);
            current = String::new();
            assert(texts_view(done@).push(current@) =~= parts.push(word).push(Seq::empty()));
        } else {
            current.push(c);
            assert(texts_view(done@).push(current@) =~= parts.push(word.push(c)));
        }
    }
    assert(path@.take(path@.len() as int) =~= path@);
    let ghost parts = texts_view(done@);
    let ghost word = current@;
    done.push(current);
    assert(texts_view(done@) =~= parts.push(word));
    done
}

/// Looks up the text at a path of keys separated by `/`.
///
/// Each part of the path is a key of the object reached so far. The
/// default comes back where a key is missing, where a value on the way is
/// no object, and where the value at the end is not text.
pub fn get_config_value(config: &Node, path: &str, default_value: &str) -> (r: String)
    ensures
        r@ == config_value(config@, path@, default_value@),
{
    let parts = split_at_slashes(path);
    let ghost all = texts_view(parts@);
    let mut current: &Node = config;
    let mut i: usize = 0;
    assert(all.skip(0) =~= all);
    while i < parts.len()
        invariant
            i <= parts.len(),
            all == texts_view(parts@),
            all == split_path(path@),
            descend(config@, all) == descend(current@, all.skip(i as int)),
        decreases parts.len() - i,
    {
        proof {
            assert(all.skip(i as int)[0] == parts@[i as int]@);
            assert(all.skip(i as int).skip(1) =~= all.skip(i + 1));
        }
        match current.get(parts[i].as_str()) {
            Some(child) => {
                current = child;
            },
            None => {
                return default_value.to_owned();
            },
        }
        i += 1;
    }
    match current.as_str() {
        Some(text) => text.to_owned(),
        None => default_value.to_owned(),
    }
}

} // verus!
