use vstd::prelude::*;
use crate::text::{decimal, join, push_decimal};
use crate::mashup::{join_words, str_views};

verus! {

/// The order of a selection.
#[derive(Clone, Copy, Debug, PartialEq, Eq)]
pub enum OrderDirection {
    DESC,
}

impl OrderDirection {
    /// The direction as the query string writes it.
    pub fn as_str(&self) -> (r: &'static str)
        ensures
            r@ == "desc"@,
    {
        match self {
            OrderDirection::DESC => "desc",
        }
    }
}

/// Where the system of record is reached, and the key it is reached with.
pub struct SupabaseClient {
    base_url: String,
    key: String,
}

impl SupabaseClient {
    pub closed spec fn spec_base_url(&self) -> Seq<char> {
        self.base_url@
    }

    pub closed spec fn spec_key(&self) -> Seq<char> {
        self.key@
    }

    /// A client for the service at `base_url`, authorized by `key`.
    pub fn with_config(base_url: String, key: String) -> (r: Self)
        ensures
            r.spec_base_url() == base_url@,
            r.spec_key() == key@,
    {
        Self { base_url, key }
    }

    /// The key that authorizes requests.
    pub fn key(&self) -> (r: &str)
        ensures
            r@ == self.spec_key(),
    {
        self.key.as_str()
    }

    /// The table `table_name` of this service.
    pub fn from(self, table_name: &str) -> (r: SupabaseTable)
        ensures
            r.client == self,
            r.table_name@ == table_name@,
    {
        SupabaseTable { client: self, table_name: table_name.to_string() }
    }
}

/// One table of the system of record.
pub struct SupabaseTable {
    pub client: SupabaseClient,
    pub table_name: String,
}

/// The address of a table: the service address, a slash, the table name.
pub open spec fn table_address(t: SupabaseTable) -> Seq<char> {
    t.client.spec_base_url() + "/"@ + t.table_name@
}

impl SupabaseTable {
    /// The address of this table.
    pub fn table_url(&self) -> (r: String)
        ensures
            r@ == table_address(*self),
    {
        let mut s = self.client.base_url.clone();
        s.append("/");
        s.append(self.table_name.as_str());
        s
    }

    /// A selection of rows of this table, unordered and unbounded.
    pub fn select(self) -> (r: SelectBuilder)
        ensures
            r.table == self,
            r.columns is None,
            r.limit is None,
            r.order_column is None,
            r.order_direction is None,
    {
        SelectBuilder::new(self)
    }

    /// An insertion of `row` into this table.
    pub fn insert<J>(self, row: J) -> (r: InsertBuilder<J>)
        ensures
            r.table == self,
            r.rows@ == seq![row],
    {
        let rows = vec![row];
        InsertBuilder::new(self, rows)
    }

    /// A deletion of rows of this table; all rows until narrowed.
    pub fn delete(self) -> (r: DeleteBuilder)
        ensures
            r.table == self,
            r.notin_column is None,
            r.notin_values is None,
    {
        DeleteBuilder::new(self)
    }
}

/// A selection: which columns, in what order, how many rows.
pub struct SelectBuilder {
    pub table: SupabaseTable,
    pub columns: Option<&'static str>,
    pub limit: Option<u64>,
    pub order_column: Option<&'static str>,
    pub order_direction: Option<OrderDirection>,
}

/// The query string of a selection.
pub open spec fn select_address(b: SelectBuilder) -> Seq<char> {
    let columns = match b.columns {
        Some(c) => c@,
        None => "*"@,
    };
    let order = match (b.order_column, b.order_direction) {
        (Some(c), Some(d)) => "&order="@ + c@ + "."@ + "desc"@,
        _ => Seq::empty(),
    };
    let limit = match b.limit {
        Some(l) => "&limit="@ + decimal(l as nat),
        None => Seq::empty(),
    };
    table_address(b.table) + "?select="@ + columns + order + limit
}

impl SelectBuilder {
    /// All columns of all rows of `table`, in no set order.
    pub fn new(table: SupabaseTable) -> (r: Self)
        ensures
            r.table == table,
            r.columns is None,
            r.limit is None,
            r.order_column is None,
            r.order_direction is None,
    {
        Self { table, columns: None, limit: None, order_column: None, order_direction: None }
    }

    /// The rows ordered by `column` in `direction`.
    pub fn order(self, column: &'static str, direction: OrderDirection) -> (r: Self)
        ensures
            r.table == self.table,
            r.columns == self.columns,
            r.limit == self.limit,
            r.order_column == Some(column),
            r.order_direction == Some(direction),
    {
        let mut b = self;
        b.order_column = Some(column);
        b.order_direction = Some(direction);
        b
    }

    /// At most `limit` rows.
    pub fn limit(self, limit: u64) -> (r: Self)
        ensures
            r.table == self.table,
            r.columns == self.columns,
            r.limit == Some(limit),
            r.order_column == self.order_column,
            r.order_direction == self.order_direction,
    {
        let mut b = self;
        b.limit = Some(limit);
        b
    }

    /// The request that performs this selection.
    pub fn request_url(&self) -> (r: String)
        ensures
            r@ == select_address(*self),
    {
        let mut url = self.table.table_url();
        url.append("?select=");
        match self.columns {
            Some(c) => url.append(c),
            None => url.append("*"),
        }
        match (self.order_column, &self.order_direction) {
            (Some(column), Some(direction)) => {
                url.append("&order=");
                url.append(column);
                url.append(".");
                url.append(direction.as_str());
            },
            _ => {},
        }
        match self.limit {
            Some(l) => {
                url.append("&limit=");
                push_decimal(&mut url, l);
            },
            None => {},
        }
        assert(url@ =~= select_address(*self));
        url
    }
}

/// An insertion of rows.
pub struct InsertBuilder<J> {
    pub table: SupabaseTable,
    pub rows: Vec<J>,
}

impl<J> InsertBuilder<J> {
    /// An insertion of `rows` into `table`.
    pub fn new(table: SupabaseTable, rows: Vec<J>) -> (r: Self)
        ensures
            r.table == table,
            r.rows == rows,
    {
        Self { table, rows }
    }

    /// The request that performs this insertion.
    pub fn request_url(&self) -> (r: String)
        ensures
            r@ == table_address(self.table),
    {
        self.table.table_url()
    }
}

/// A deletion, narrowed to the rows whose column value is not listed.
pub struct DeleteBuilder {
    pub table: SupabaseTable,
    pub notin_column: Option<&'static str>,
    pub notin_values: Option<Vec<String>>,
}

/// The query string of a deletion.
pub open spec fn delete_address(b: DeleteBuilder) -> Seq<char> {
    match (b.notin_column, b.notin_values) {
        (Some(c), Some(v)) => table_address(b.table) + "?"@ + c@ + "=not.in.("@ + join(
            str_views(v@),
            ","@,
        ) + ")"@,
        _ => table_address(b.table),
    }
}

impl DeleteBuilder {
    /// A deletion of every row of `table`.
    pub fn new(table: SupabaseTable) -> (r: Self)
        ensures
            r.table == table,
            r.notin_column is None,
            r.notin_values is None,
    {
        Self { table, notin_column: None, notin_values: None }
    }

    /// Only the rows whose `column` holds none of `values`.
    pub fn notin(self, column: &'static str, values: Vec<String>) -> (r: Self)
        ensures
            r.table == self.table,
            r.notin_column == Some(column),
            r.notin_values == Some(values),
    {
        let mut b = self;
        b.notin_values = Some(values);
        b.notin_column = Some(column);
        b
    }

    /// The request that performs this deletion.
    pub fn request_url(&self) -> (r: String)
        ensures
            r@ == delete_address(*self),
    {
        let mut url = self.table.table_url();
        match (self.notin_column, &self.notin_values) {
            (Some(column), Some(values)) => {
                url.append("?");
                url.append(column);
                url.append("=not.in.(");
                let joined = join_words(values, ",");
                url.append(joined.as_str());
                url.append(")");
            },
            _ => {},
        }
        assert(url@ =~= delete_address(*self));
        url
    }
}

} // verus!
