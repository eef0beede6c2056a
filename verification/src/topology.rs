//! The table of direct neighbours that the cluster coordinator assigns.

use vstd::prelude::*;

verus! {

/// A row of the table by its content: a node and its neighbour list.
pub type Row = (Seq<char>, Seq<Seq<char>>);

/// The map that a list of rows stands for. Where a node occurs in several
/// rows, the earliest row speaks for it.
pub open spec fn rows_map(rows: Seq<Row>) -> Map<Seq<char>, Seq<Seq<char>>>
    decreases rows.len(),
{
    if rows.len() == 0 {
        Map::empty()
    } else {
        rows_map(rows.drop_first()).insert(rows[0].0, rows[0].1)
    }
}

/// A node that no row among the first `n` names keeps, in the map of all
/// the rows, what the rows from `n` on give it.
proof fn lemma_skip_unnamed(rows: Seq<Row>, n: int, node: Seq<char>)
    requires
        0 <= n <= rows.len(),
        forall|j: int| 0 <= j < n ==> rows[j].0 != node,
    ensures
        rows_map(rows).contains_key(node) == rows_map(rows.skip(n)).contains_key(node),
        rows_map(rows).contains_key(node) ==> rows_map(rows)[node] == rows_map(rows.skip(n))[node],
    decreases n,
{
    if n == 0 {
        assert(rows.skip(0) =~= rows);
    } else {
        assert(rows.drop_first().skip(n - 1) =~= rows.skip(n));
        lemma_skip_unnamed(rows.drop_first(), n - 1, node);
    }
}

/// Rewriting the earliest row that names a node rewrites that node's entry
/// in the map and nothing else.
proof fn lemma_update_first(rows: Seq<Row>, at: int, neighbours: Seq<Seq<char>>)
    requires
        0 <= at < rows.len(),
        forall|j: int| 0 <= j < at ==> rows[j].0 != rows[at].0,
    ensures
        rows_map(rows.update(at, (rows[at].0, neighbours))) == rows_map(rows).insert(
            rows[at].0,
            neighbours,
        ),
    decreases at,
{
    let node = rows[at].0;
    let after = rows.update(at, (node, neighbours));
    if at == 0 {
        assert(after.drop_first() =~= rows.drop_first());
        assert(rows_map(after) =~= rows_map(rows).insert(node, neighbours));
    } else {
        let tail = rows.drop_first();
        assert(after.drop_first() =~= tail.update(at - 1, (tail[at - 1].0, neighbours)));
        lemma_update_first(tail, at - 1, neighbours);
        assert(rows_map(after) =~= rows_map(rows).insert(node, neighbours));
    }
}

/// A row for a node that no row names yet adds that node's entry to the
/// map and changes nothing else.
proof fn lemma_push_unnamed(rows: Seq<Row>, row: Row)
    requires
        forall|j: int| 0 <= j < rows.len() ==> rows[j].0 != row.0,
    ensures
        rows_map(rows.push(row)) == rows_map(rows).insert(row.0, row.1),
    decreases rows.len(),
{
    let after = rows.push(row);
    if rows.len() == 0 {
        assert(after.drop_first() =~= rows);
        assert(rows_map(after) =~= rows_map(rows).insert(row.0, row.1));
    } else {
        assert(after.drop_first() =~= rows.drop_first().push(row));
        lemma_push_unnamed(rows.drop_first(), row);
        assert(rows_map(after) =~= rows_map(rows).insert(row.0, row.1));
    }
}

/// The map names exactly the nodes that the rows name.
proof fn lemma_domain(rows: Seq<Row>, node: Seq<char>)
    ensures
        rows_map(rows).contains_key(node) <==> exists|j: int|
            0 <= j < rows.len() && (#[trigger] rows[j]).0 == node,
    decreases rows.len(),
{
    if rows.len() > 0 {
        let tail = rows.drop_first();
        lemma_domain(tail, node);
        if rows_map(rows).contains_key(node) {
            if rows[0].0 != node {
                let j = choose|j: int| 0 <= j < tail.len() && (#[trigger] tail[j]).0 == node;
                assert(rows[j + 1] == tail[j]);
            }
        }
        if exists|j: int| 0 <= j < rows.len() && (#[trigger] rows[j]).0 == node {
            let j = choose|j: int| 0 <= j < rows.len() && (#[trigger] rows[j]).0 == node;
            if j > 0 {
                assert(tail[j - 1] == rows[j]);
            }
        }
    }
}

/// A mapping from node identifier to that node's ordered neighbour list.
#[derive(Debug)]
pub struct Topology {
    rows: Vec<(String, Vec<String>)>,
}

impl Topology {
    /// The rows by their content, in storage order.
    pub closed spec fn rows(&self) -> Seq<Row> {
        self.rows.deep_view()
    }
}

impl View for Topology {
    type V = Map<Seq<char>, Seq<Seq<char>>>;

    open spec fn view(&self) -> Map<Seq<char>, Seq<Seq<char>>> {
        rows_map(self.rows())
    }
}

impl Topology {
    /// The empty table.
    pub fn new() -> (table: Topology)
        ensures
            table@ == Map::<Seq<char>, Seq<Seq<char>>>::empty(),
    {
        Topology { rows: Vec::new() }
    }

    /// The position of the earliest row that names `node`.
    fn position(&self, node: &String) -> (at: Option<usize>)
        ensures
            match at {
                Some(i) => i < self.rows.len() && self.rows()[i as int].0 == node@
                    && forall|j: int| 0 <= j < i ==> self.rows()[j].0 != node@,
                None => forall|j: int| 0 <= j < self.rows.len() ==> self.rows()[j].0 != node@,
            },
            self.rows().len() == self.rows.len(),
    {
        let mut i: usize = 0;
        while i < self.rows.len()
            invariant
                i <= self.rows.len(),
                self.rows().len() == self.rows.len(),
                forall|j: int| 0 <= j < i ==> self.rows()[j].0 != node@,
            decreases self.rows.len() - i,
        {
            if self.rows[i].0 == *node {
                return Some(i);
            }
            i += 1;
        }
        None
    }

    /// The neighbours assigned to `node`, if the table names it.
    pub fn get(&self, node: &String) -> (found: Option<&Vec<String>>)
        ensures
            match found {
                Some(neighbours) => self@.contains_key(node@) && neighbours.deep_view()
                    == self@[node@],
                None => !self@.contains_key(node@),
            },
    {
        let at = self.position(node);
        proof {
            let rows = self.rows();
            match at {
                Some(i) => {
                    lemma_skip_unnamed(rows, i as int, node@);
                    assert(rows.skip(i as int)[0] == rows[i as int]);
                },
                None => {
                    lemma_skip_unnamed(rows, rows.len() as int, node@);
                },
            }
        }
        match at {
            Some(i) => Some(&self.rows[i].1),
            None => None,
        }
    }

    /// Assigns `neighbours` to `node`, in place of any list it had.
    pub fn insert(&mut self, node: String, neighbours: Vec<String>)
        ensures
            final(self)@ == old(self)@.insert(node@, neighbours.deep_view()),
    {
        let at = self.position(&node);
        let ghost before = self.rows();
        let ghost row = (node@, neighbours.deep_view());
        match at {
            Some(i) => {
                self.rows.set(i, (node, neighbours));
                proof {
                    assert(self.rows() =~= before.update(i as int, row));
                    lemma_update_first(before, i as int, row.1);
                }
            },
            None => {
                self.rows.push((node, neighbours));
                proof {
                    assert(self.rows() =~= before.push(row));
                    lemma_push_unnamed(before, row);
                }
            },
        }
    }

    /// The nodes that the table names, each as often as it was named.
    pub fn nodes(&self) -> (names: Vec<String>)
        ensures
            forall|node: Seq<char>| self@.contains_key(node) <==> names.deep_view().contains(node),
    {
        let mut names: Vec<String> = Vec::new();
        let mut i: usize = 0;
        while i < self.rows.len()
            invariant
                i <= self.rows.len(),
                self.rows().len() == self.rows.len(),
                names.len() == i,
                forall|j: int| 0 <= j < i ==> names@[j]@ == self.rows@[j].0@,
            decreases self.rows.len() - i,
        {
            names.push(self.rows[i].0.clone());
            i += 1;
        }
        proof {
            let rows = self.rows();
            let listed = names.deep_view();
            assert forall|node: Seq<char>| self@.contains_key(node) <==> listed.contains(
                node,
            ) by {
                lemma_domain(rows, node);
                if self@.contains_key(node) {
                    let j = choose|j: int| 0 <= j < rows.len() && (#[trigger] rows[j]).0 == node;
                    assert(listed[j] == node);
                }
                if listed.contains(node) {
                    let j = choose|j: int| 0 <= j < listed.len() && listed[j] == node;
                    assert(rows[j].0 == node);
                }
            }
        }
        names
    }
}

impl Clone for Topology {
    fn clone(&self) -> (copy: Topology)
        ensures
            copy@ == self@,
    {
        let mut rows: Vec<(String, Vec<String>)> = Vec::new();
        let mut i: usize = 0;
        while i < self.rows.len()
            invariant
                i <= self.rows.len(),
                rows.len() == i,
                forall|j: int| 0 <= j < i ==> rows@[j].deep_view() == self.rows@[j].deep_view(),
            decreases self.rows.len() - i,
        {
            let neighbours = self.rows[i].1.clone();
            assert(neighbours.deep_view() =~= self.rows@[i as int].1.deep_view());
            rows.push((self.rows[i].0.clone(), neighbours));
            i += 1;
        }
        assert(rows.deep_view() =~= self.rows.deep_view());
        Topology { rows }
    }
}

} // verus!
