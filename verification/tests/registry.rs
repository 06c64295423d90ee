use rsql::Database;
use rsql::Error;
use rsql::JoinedRow;
use rsql::Row;
use rsql::Table;

#[derive(Debug, Clone, PartialEq)]
struct Book {
    id: u32,
    name: String,
    author_id: u32,
}

impl Row for Book {
    fn header() -> Vec<String> {
        vec!["ID".to_string(), "Name".to_string(), "Author ID".to_string()]
    }

    fn cells(&self) -> Vec<String> {
        vec![self.id.to_string(), self.name.clone(), self.author_id.to_string()]
    }

    fn dup(&self) -> Self {
        self.clone()
    }
}

#[derive(Debug, Clone, PartialEq)]
struct Author {
    id: u32,
    name: String,
}

impl Row for Author {
    fn header() -> Vec<String> {
        vec!["ID".to_string(), "Name".to_string()]
    }

    fn cells(&self) -> Vec<String> {
        vec![self.id.to_string(), self.name.clone()]
    }

    fn dup(&self) -> Self {
        self.clone()
    }
}

#[test]
fn create_table() {
    let mut db = Database::new();

    assert!(db.create_table::<Book>("books").is_ok());

    let err = db.create_table::<Book>("books");

    assert!(matches!(err, Err(Error::TableAlreadyExists(_))));
}

#[test]
fn insert_single() {
    let mut db = Database::new();

    db.create_table::<Book>("books").unwrap();

    db.insert_into(
        "books",
        Book {
            id: 1,
            name: "Test Book".to_string(),
            author_id: 1,
        },
    )
    .unwrap();

    let table = db.from::<Book>("books").unwrap();

    assert_eq!(table.rows.len(), 1);

    assert_eq!(table.rows[0].name, "Test Book");
}

#[test]
fn insert_many() {
    let mut db = Database::new();

    db.create_table::<Book>("books").unwrap();

    db.insert_into(
        "books",
        Book {
            id: 1,
            name: "Book 1".to_string(),
            author_id: 1,
        },
    )
    .unwrap();

    db.insert_into(
        "books",
        Book {
            id: 2,
            name: "Book 2".to_string(),
            author_id: 2,
        },
    )
    .unwrap();

    let table = db.from::<Book>("books").unwrap();

    assert_eq!(table.rows.len(), 2);

    assert_eq!(table.rows[0].name, "Book 1");

    assert_eq!(table.rows[1].name, "Book 2");
}

#[test]
fn cross_join() {
    let mut db = Database::new();

    db.create_table::<Book>("books").unwrap();

    db.insert_into(
        "books",
        Book {
            id: 1,
            name: "1984".to_string(),
            author_id: 1,
        },
    )
    .unwrap();

    db.insert_into(
        "books",
        Book {
            id: 2,
            name: "Animal Farm".to_string(),
            author_id: 1,
        },
    )
    .unwrap();

    db.create_table::<Author>("authors").unwrap();

    db.insert_into(
        "authors",
        Author {
            id: 1,
            name: "George Orwell".to_string(),
        },
    )
    .unwrap();

    db.insert_into(
        "authors",
        Author {
            id: 2,
            name: "Aldous Huxley".to_string(),
        },
    )
    .unwrap();

    let books = db.from::<Book>("books").unwrap();
    let authors = db.from::<Author>("authors").unwrap();

    let joined_table = db.cross_join(&books, &authors);

    assert_eq!(joined_table.rows.len(), 4);

    let first_row = &joined_table.rows[0];

    assert_eq!(first_row.left.id, 1);
    assert_eq!(first_row.left.name, "1984");
    assert_eq!(first_row.left.author_id, 1);
    assert_eq!(first_row.right.id, 1);
    assert_eq!(first_row.right.name, "George Orwell");

    let last_row = &joined_table.rows[3];

    assert_eq!(last_row.left.id, 2);
    assert_eq!(last_row.left.name, "Animal Farm");
    assert_eq!(last_row.left.author_id, 1);
    assert_eq!(last_row.right.id, 2);
    assert_eq!(last_row.right.name, "Aldous Huxley");
}

#[test]
fn cross_join_order_and_name() {
    let db = Database::new();

    let mut books: Table<Book> = Table::new("books".to_string());
    let mut authors: Table<Author> = Table::new("authors".to_string());

    books.insert_many(&[
        Book {
            id: 1,
            name: "1984".to_string(),
            author_id: 1,
        },
        Book {
            id: 2,
            name: "Animal Farm".to_string(),
            author_id: 1,
        },
    ]);

    authors.insert_many(&[
        Author {
            id: 1,
            name: "George Orwell".to_string(),
        },
        Author {
            id: 2,
            name: "Aldous Huxley".to_string(),
        },
    ]);

    let joined = db.cross_join(&books, &authors);

    assert_eq!(joined.name, "books_cross_authors");
    assert_eq!(joined.rows.len(), 4);
    for i in 0..2 {
        for j in 0..2 {
            let row = &joined.rows[i * 2 + j];
            assert_eq!(row.left, books.rows[i]);
            assert_eq!(row.right, authors.rows[j]);
        }
    }
}

#[test]
fn cross_join_empty_side() {
    let db = Database::new();

    let mut books: Table<Book> = Table::new("books".to_string());
    let authors: Table<Author> = Table::new("authors".to_string());

    assert_eq!(db.cross_join(&books, &authors).rows.len(), 0);
    assert_eq!(db.cross_join(&authors, &books).rows.len(), 0);

    books.insert(Book {
        id: 1,
        name: "1984".to_string(),
        author_id: 1,
    });

    assert_eq!(db.cross_join(&books, &authors).rows.len(), 0);
    assert_eq!(db.cross_join(&authors, &books).rows.len(), 0);
}

#[test]
fn joined_header_is_concatenation() {
    let header = <JoinedRow<Book, Author> as Row>::header();

    assert_eq!(header.len(), 5);
    assert_eq!(header, vec!["ID", "Name", "Author ID", "ID", "Name"]);
}

#[test]
fn wrong_row_type_is_rejected() {
    let mut db = Database::new();

    db.create_table::<Book>("books").unwrap();

    db.insert_into(
        "books",
        Book {
            id: 1,
            name: "1984".to_string(),
            author_id: 1,
        },
    )
    .unwrap();

    let lookup = db.from::<Author>("books");
    assert!(matches!(lookup, Err(Error::InvalidRowType(_))));

    let insert = db.insert_into(
        "books",
        Author {
            id: 9,
            name: "Nobody".to_string(),
        },
    );
    assert!(matches!(insert, Err(Error::InvalidRowType(_))));

    let table = db.from::<Book>("books").unwrap();
    assert_eq!(table.rows.len(), 1);
    assert_eq!(table.rows[0].name, "1984");
}

#[test]
fn missing_table_is_reported() {
    let mut db = Database::new();

    db.create_table::<Book>("books").unwrap();

    let lookup = db.from::<Book>("authors");
    assert!(matches!(lookup, Err(Error::TableNotFound(_))));

    let insert = db.insert_into(
        "authors",
        Author {
            id: 1,
            name: "George Orwell".to_string(),
        },
    );
    assert!(matches!(insert, Err(Error::TableNotFound(_))));

    let still_there = db.from::<Book>("books").unwrap();
    assert_eq!(still_there.rows.len(), 0);
}

#[test]
fn insert_many_keeps_order() {
    let mut table: Table<Author> = Table::new("authors".to_string());

    table.insert(Author {
        id: 1,
        name: "George Orwell".to_string(),
    });

    table.insert_many(&[
        Author {
            id: 2,
            name: "Aldous Huxley".to_string(),
        },
        Author {
            id: 3,
            name: "Harper Lee".to_string(),
        },
    ]);

    assert_eq!(table.rows.len(), 3);
    assert_eq!(table.rows[0].id, 1);
    assert_eq!(table.rows[1].id, 2);
    assert_eq!(table.rows[2].id, 3);
}

#[test]
fn render_reports_header_and_cells() {
    let mut table: Table<Book> = Table::new("books".to_string());

    table.insert(Book {
        id: 1,
        name: "1984".to_string(),
        author_id: 1,
    });

    let (header, lines) = table.render();

    assert_eq!(header, vec!["ID", "Name", "Author ID"]);
    assert_eq!(lines.len(), 1);
    assert_eq!(lines[0], vec!["1", "1984", "1"]);
}

#[test]
fn error_carries_table_name() {
    let mut db = Database::new();

    db.create_table::<Book>("books").unwrap();

    match db.create_table::<Book>("books") {
        Err(e) => assert_eq!(e.table_name().as_str(), "books"),
        Ok(()) => panic!("second creation must fail"),
    }

    match db.from::<Book>("authors") {
        Err(e) => assert_eq!(e.table_name().as_str(), "authors"),
        Ok(_) => panic!("lookup of a missing name must fail"),
    }
}

#[test]
fn default_is_empty() {
    let mut db = Database::default();

    assert!(matches!(db.from::<Book>("books"), Err(Error::TableNotFound(_))));
    assert!(db.create_table::<Book>("books").is_ok());
}
