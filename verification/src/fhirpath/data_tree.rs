//! Trees of structured data, the values of complex type.

use super::value::{data_type_of, Type, Value, ValueView};
use vstd::prelude::*;

verus! {

/// A node of a tree of structured data: an object of a named type with its
/// children, or a leaf that holds a value.
#[derive(PartialEq, Debug)]
pub enum DataNode {
    Object(Type, Vec<Box<DataNode>>),
    Value(Value),
}

/// The mathematical value of a [`DataNode`].
pub enum DataNodeView {
    Object(Seq<char>, Seq<DataNodeView>),
    Value(Box<ValueView>),
}

impl View for DataNode {
    type V = DataNodeView;

    open spec fn view(&self) -> DataNodeView
        decreases self,
    {
        match self {
            DataNode::Object(data_type, children) => DataNodeView::Object(
                data_type@,
                Seq::new(
                    children.len() as nat,
                    |i: int|
                        if 0 <= i < children.len() {
                            (*children[i]).view()
                        } else {
                            arbitrary()
                        },
                ),
            ),
            DataNode::Value(value) => DataNodeView::Value(Box::new(value.view())),
        }
    }
}

/// The data type of a node: the type that an object names, or the data type
/// of the value that a leaf holds.
pub open spec fn node_type_of(node: DataNodeView) -> Seq<char>
    decreases node,
{
    match node {
        DataNodeView::Object(data_type, _) => data_type,
        DataNodeView::Value(value) => data_type_of(*value),
    }
}

impl Clone for DataNode {
    fn clone(&self) -> (copy: Self)
        ensures
            copy@ == self@,
        decreases self,
    {
        match self {
            DataNode::Object(data_type, children) => {
                let mut copies: Vec<Box<DataNode>> = Vec::new();
                let mut i: usize = 0;
                while i < children.len()
                    invariant
                        i <= children.len(),
                        copies.len() == i,
                        decreases_to!(self => children),
                        forall|j: int| 0 <= j < i ==> (*copies[j])@ == (*children[j])@,
                    decreases children.len() - i,
                {
                    copies.push(Box::new((*children[i]).clone()));
                    i += 1;
                }
                let copy = DataNode::Object(*data_type, copies);
                assert(copy@ == self@) by {
                    assert(copy@->Object_1 =~= self@->Object_1);
                }
                copy
            },
            DataNode::Value(value) => DataNode::Value(value.clone()),
        }
    }
}

impl DataNode {
    pub fn data_type(&self) -> (t: Type)
        ensures
            t@ == node_type_of(self@),
        decreases self,
    {
        match self {
            Self::Object(data_type, _) => *data_type,
            Self::Value(value) => value.data_type(),
        }
    }
}

} // verus!
