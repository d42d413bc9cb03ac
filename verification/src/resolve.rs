//! Resolving one permission path against a tree.

use vstd::prelude::*;
use vstd::string::StrSliceExecFns;
use crate::error::{AuthError, ErrorView};
use crate::model::{find_item, find_value, DataView, ItemView, ValueView};
use crate::path::{
    chars_of, component_spans, components, extension, has_parent, is_file_name, last_dot_in,
    lemma_last_dot_bound, lemma_single_char, spans_mark, stem,
};
use crate::role::{DataValue, RoleItems};
use crate::text::str_eq;

verus! {

/// The forest reached from `forest` by going down through the items that
/// `names` names, one level for each; the root marker is passed over. The
/// first name without an item ends the descent and is the error.
pub open spec fn descend(forest: Seq<ItemView>, names: Seq<Seq<char>>) -> Result<
    Seq<ItemView>,
    Seq<char>,
>
    decreases names.len(),
{
    if names.len() == 0 {
        Ok(forest)
    } else if names.first() == seq!['/'] {
        descend(forest, names.drop_first())
    } else {
        match find_item(forest, names.first()) {
            Some(item) => descend(item.items, names.drop_first()),
            None => Err(names.first()),
        }
    }
}

/// The components of a directory that the resolver descends through: all
/// but its last two.
pub open spec fn walked(dir: Seq<Seq<char>>) -> Seq<Seq<char>> {
    if dir.len() >= 2 {
        dir.take(dir.len() - 2)
    } else {
        Seq::empty()
    }
}

/// Whether the extension of a path names the type of the datum.
pub open spec fn type_matches(ext: Seq<char>, data: DataView) -> bool {
    match data {
        DataView::Boolean(_) => ext == "boolean"@,
        DataView::Float(_) => ext == "float"@,
        DataView::Integer(_) => ext == "integer"@,
        DataView::String(_) => ext == "string"@,
    }
}

/// The value that the file name `file` selects among the values of `item`,
/// or the reason why it selects none.
pub open spec fn select(values: Seq<ValueView>, file: Seq<char>) -> Result<
    DataView,
    ErrorView,
> {
    if !is_file_name(file) {
        Err(ErrorView::MissingValueName)
    } else {
        match extension(file) {
            None => Err(ErrorView::MissingValueExtension),
            Some(ext) => match find_value(values, stem(file)) {
                None => Err(ErrorView::MissingValue),
                Some(value) => if type_matches(ext, value.data) {
                    Ok(value.data)
                } else {
                    Err(ErrorView::InvalidDataValueType)
                },
            },
        }
    }
}

/// What `path` resolves to in `tree`.
///
/// The path needs a directory part. The resolver descends from the top of
/// the tree through the directory's components but the last two, looks the
/// directory's last component up where the descent ended, and selects a
/// value of that item by the file name. The first step that fails decides
/// the error.
pub open spec fn resolve(tree: Seq<ItemView>, path: Seq<char>) -> Result<DataView, ErrorView> {
    let comps = components(path);
    if !has_parent(comps) {
        Err(ErrorView::MissingParentPath)
    } else {
        let dir = comps.drop_last();
        match descend(tree, walked(dir)) {
            Err(segment) => Err(ErrorView::InvalidAuthPath(segment)),
            Ok(cursor) => if dir.len() == 0 {
                Err(ErrorView::MissingLastItem)
            } else {
                match find_item(cursor, dir.last()) {
                    None => Err(ErrorView::InvalidAuthPath(dir.last())),
                    Some(item) => select(item.values, comps.last()),
                }
            },
        }
    }
}

/// The mathematical value of a resolver's answer.
pub open spec fn outcome_view(outcome: Result<DataValue, AuthError>) -> Result<
    DataView,
    ErrorView,
> {
    match outcome {
        Ok(data) => Ok(data@),
        Err(e) => Err(e@),
    }
}

impl RoleItems {
    /// Resolves the permission path `src` in this tree and returns a copy of
    /// the datum it names, or the error of the first step that failed.
    pub fn find_value(&self, src: &str) -> (found: Result<DataValue, AuthError>)
        ensures
            outcome_view(found) == resolve(self@, src@),
    {
        let chars = chars_of(src);
        let spans = component_spans(&chars);
        let ghost comps = components(src@);
        let count = spans.len();
        if count == 0 {
            return Err(AuthError::MissingParentPath);
        }
        let (file_from, file_to) = spans[count - 1];
        proof {
            lemma_single_char(comps.last(), '/');
            lemma_single_char(comps.last(), '.');
        }
        if file_to - file_from == 1 && chars[file_from] == '/' {
            return Err(AuthError::MissingParentPath);
        }
        let dir_len = count - 1;
        let ghost dir = comps.drop_last();
        let walk_len = if dir_len >= 2 {
            dir_len - 2
        } else {
            0
        };
        let mut cursor: &RoleItems = self;
        let mut k: usize = 0;
        assert(walked(dir).skip(0) =~= walked(dir));
        while k < walk_len
            invariant
                k <= walk_len,
                walk_len == walked(dir).len(),
                dir == comps.drop_last(),
                comps == components(src@),
                1 <= count == comps.len(),
                has_parent(comps),
                count == spans@.len(),
                chars@ == src@,
                spans_mark(spans@, chars@, comps),
                descend(self@, walked(dir)) == descend(cursor@, walked(dir).skip(k as int)),
            decreases walk_len - k,
        {
            let (from, to) = spans[k];
            let name = src.substring_char(from, to);
            let ghost rest = walked(dir).skip(k as int);
            assert(rest.first() == name@);
            assert(rest.drop_first() =~= walked(dir).skip(k + 1));
            proof {
                lemma_single_char(name@, '/');
            }
            if !(to - from == 1 && chars[from] == '/') {
                match cursor.find(name) {
                    Some(item) => {
                        cursor = &item.items;
                    },
                    None => {
                        let segment = name.to_owned();
                        assert(descend(cursor@, rest) == Err::<Seq<ItemView>, Seq<char>>(
                            segment@,
                        ));
                        return Err(AuthError::InvalidAuthPath(segment));
                    },
                }
            }
            k += 1;
        }
        assert(walked(dir).skip(walk_len as int) =~= Seq::<Seq<char>>::empty());
        if dir_len == 0 {
            return Err(AuthError::MissingLastItem);
        }
        let (last_from, last_to) = spans[dir_len - 1];
        let last_name = src.substring_char(last_from, last_to);
        assert(dir.last() == last_name@);
        let last_item = match cursor.find(last_name) {
            Some(item) => item,
            None => {
                return Err(AuthError::InvalidAuthPath(last_name.to_owned()));
            },
        };
        let ghost file = comps.last();
        assert(file == chars@.subrange(file_from as int, file_to as int));
        proof {
            lemma_single_char(file, '.');
        }
        if file_to - file_from == 1 && chars[file_from] == '.' {
            return Err(AuthError::MissingValueName);
        }
        if file_to - file_from == 2 && chars[file_from] == '.' && chars[file_from + 1] == '.' {
            assert(file =~= seq!['.', '.']);
            return Err(AuthError::MissingValueName);
        }
        assert(file != seq!['.', '.']) by {
            if file == seq!['.', '.'] {
                assert(file.len() == 2 && file[0] == '.' && file[1] == '.');
            }
        }
        let dot = match last_dot_in(&chars, file_from, file_to) {
            Some(d) => d,
            None => {
                return Err(AuthError::MissingValueExtension);
            },
        };
        if dot == 0 {
            return Err(AuthError::MissingValueExtension);
        }
        proof {
            lemma_last_dot_bound(file);
        }
        let value_name = src.substring_char(file_from, file_from + dot);
        let value_ext = src.substring_char(file_from + dot + 1, file_to);
        assert(value_name@ =~= stem(file));
        assert(value_ext@ =~= extension(file)->0);
        let value = match last_item.values.find(value_name) {
            Some(v) => v,
            None => {
                return Err(AuthError::MissingValue);
            },
        };
        let matches = match &value.data {
            DataValue::Boolean(_) => str_eq(value_ext, "boolean"),
            DataValue::Float(_) => str_eq(value_ext, "float"),
            DataValue::Integer(_) => str_eq(value_ext, "integer"),
            DataValue::String(_) => str_eq(value_ext, "string"),
        };
        if !matches {
            return Err(AuthError::InvalidDataValueType);
        }
        Ok(value.data.clone())
    }
}

} // verus!
