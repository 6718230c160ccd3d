use async_chat::artists::Table;

#[test]
fn empty_table_has_no_text() {
    assert_eq!(Table::new().to_text(), "");
}

#[test]
fn table_lists_artists_in_order_of_entry() {
    let mut table = Table::new();
    table.insert("Gesualdo", "many madrigals");
    table.insert("Caravaggio", "The Musicians");
    table.insert("Gesualdo", "Tenebrae Responsoria");
    table.insert("Cellini", "Perseus with the head of Medusa");
    table.insert("Caravaggio", "The Calling of St. Matthew");
    assert_eq!(
        table.to_text(),
        "Gesualdo\n1: many madrigals\n2: Tenebrae Responsoria\n\n\
         Caravaggio\n1: The Musicians\n2: The Calling of St. Matthew\n\n\
         Cellini\n1: Perseus with the head of Medusa\n"
    );
}

#[test]
fn sort_works_orders_each_artists_works() {
    let mut table = Table::new();
    for work in ["b", "a", "ab", "B", "", "é", "a"] {
        table.insert("x", work);
    }
    table.insert("y", "2");
    table.insert("y", "10");
    table.sort_works();
    assert_eq!(
        table.to_text(),
        "x\n1: \n2: B\n3: a\n4: a\n5: ab\n6: b\n7: é\n\ny\n1: 10\n2: 2\n"
    );
}

#[test]
fn works_are_numbered_in_decimal() {
    let mut table = Table::new();
    for i in 0..12 {
        table.insert("x", &i.to_string());
    }
    let text = table.to_text();
    assert!(text.ends_with("9: 8\n10: 9\n11: 10\n12: 11\n"));
}
